//! The streaming H.264 codec: parameter sets are kept across packets, slices
//! are decoded against them, and decoded frames are cropped and handed out.

use vstd::prelude::*;
use vstd::slice::slice_subrange;

use crate::bitstream::addressable;
use crate::bitstream::golomb_message;
use crate::bitstream::lead_in;
use crate::bitstream::lemma_lead_in;
use crate::bitstream::nal_units;
use crate::bitstream::parse_pps_nal;
use crate::bitstream::parse_slice_header_minimal;
use crate::bitstream::parse_sps_nal;
use crate::bitstream::pps_of_nal;
use crate::bitstream::sps_of_nal;
use crate::bitstream::unescaped;
use crate::decoder::DecoderPlan;
use crate::decoder::DecoderView;
use crate::decoder::H264VaDecoder;
use crate::error::VaError;
use crate::h264::H264Pps;
use crate::h264::H264SliceHeader;
use crate::h264::H264Sps;
use crate::h264::NAL_TYPE_IDR;
use crate::h264::NAL_TYPE_NON_IDR_SLICE;
use crate::h264::NAL_TYPE_PPS;
use crate::h264::NAL_TYPE_SPS;
use crate::planes::check_crop_fits;
use crate::planes::crop_fits;
use crate::planes::crop_plane;
use crate::planes::lemma_plane_sample;
use crate::planes::plane;
use crate::planes::DecodedFrame;
use crate::slice_header::leading_fields;
use crate::slice_header::lemma_unescaped_len;
use crate::slice_header::start_code;
use crate::sys::VADisplay;
use crate::text::joined;

verus! {

/// Errors of the codec.
#[derive(Clone, Debug)]
pub enum CodecError {
    /// The host cannot decode.
    Unsupported(String),
    /// The stream or the driver failed.
    Other(String),
    /// No frame is ready.
    NeedMore,
}

/// A [`CodecError`] with its text as a character sequence.
#[verifier::ext_equal]
pub enum CodecErrorView {
    Unsupported(Seq<char>),
    Other(Seq<char>),
    NeedMore,
}

impl View for CodecError {
    type V = CodecErrorView;

    open spec fn view(&self) -> CodecErrorView {
        match self {
            CodecError::Unsupported(text) => CodecErrorView::Unsupported(text@),
            CodecError::Other(text) => CodecErrorView::Other(text@),
            CodecError::NeedMore => CodecErrorView::NeedMore,
        }
    }
}

/// The error for a render node that cannot be opened.
pub fn open_error(error: &VaError) -> (reported: CodecError)
    ensures
        reported@ == CodecErrorView::Unsupported(
            "VA-API: open DRM render node failed: "@ + error@.text(),
        ),
{
    CodecError::Unsupported(
        joined("VA-API: open DRM render node failed: ", error.to_text().as_str()),
    )
}

/// The error for a decoder that cannot be set up.
pub fn setup_error(error: &VaError) -> (reported: CodecError)
    ensures
        reported@ == CodecErrorView::Other("VA-API: H264VaDecoder::from_sps: "@ + error@.text()),
{
    CodecError::Other(joined("VA-API: H264VaDecoder::from_sps: ", error.to_text().as_str()))
}

/// The error for a slice that cannot be decoded.
pub fn decode_error(error: &VaError) -> (reported: CodecError)
    ensures
        reported@ == CodecErrorView::Other("VA-API: decode_slice: "@ + error@.text()),
{
    CodecError::Other(joined("VA-API: decode_slice: ", error.to_text().as_str()))
}

/// The device that a decoder is opened on: the first one unless another was
/// asked for.
pub fn selected_device(device_index: Option<u32>) -> (index: u32)
    ensures
        index == match device_index {
            Some(index) => index,
            None => 0,
        },
{
    match device_index {
        Some(index) => index,
        None => 0,
    }
}

/// The parameter sets that were seen last.
pub struct CacheView {
    pub sps: Option<H264Sps>,
    pub pps: Option<H264Pps>,
}

/// A slice to decode, with the parameter sets it is decoded against.
pub struct SliceTask {
    pub sps: H264Sps,
    pub pps: H264Pps,
    pub header: H264SliceHeader,
    pub nal_unit_type: u8,
    /// The slice NAL unit behind a four-byte start code.
    pub access_unit: Vec<u8>,
}

/// A [`SliceTask`] with its bytes as a sequence.
#[verifier::ext_equal]
pub struct TaskView {
    pub sps: H264Sps,
    pub pps: H264Pps,
    pub header: H264SliceHeader,
    pub nal_unit_type: u8,
    pub access_unit: Seq<u8>,
}

impl View for SliceTask {
    type V = TaskView;

    open spec fn view(&self) -> TaskView {
        TaskView {
            sps: self.sps,
            pps: self.pps,
            header: self.header,
            nal_unit_type: self.nal_unit_type,
            access_unit: self.access_unit@,
        }
    }
}

/// What one NAL unit does.
pub enum NalStep {
    /// The codec goes on with these parameter sets.
    Go(CacheView),
    /// A slice is to be decoded.
    Slice(TaskView),
    /// The NAL unit is refused.
    Refused(CodecErrorView),
}

/// The type of a NAL unit.
pub open spec fn nal_type(nal: Seq<u8>) -> u8 {
    nal[0] & 0x1f
}

/// What a slice NAL unit does.
pub open spec fn slice_step(cache: CacheView, nal: Seq<u8>) -> NalStep {
    match (cache.sps, cache.pps) {
        (None, _) => NalStep::Refused(
            CodecErrorView::Other("VA-API: no SPS available before slice (stream malformed?)"@),
        ),
        (_, None) => NalStep::Refused(
            CodecErrorView::Other("VA-API: no PPS available before slice (stream malformed?)"@),
        ),
        (Some(sps), Some(pps)) => match leading_fields(
            sps,
            nal_type(nal),
            unescaped(nal.skip(1)),
        ) {
            None => NalStep::Refused(
                CodecErrorView::Other("VA-API: parse slice header: "@ + golomb_message()),
            ),
            Some(header) => NalStep::Slice(
                TaskView {
                    sps,
                    pps,
                    header,
                    nal_unit_type: nal_type(nal),
                    access_unit: seq![0u8, 0u8, 0u8, 1u8] + nal,
                },
            ),
        },
    }
}

/// What a NAL unit does: parameter sets replace the ones seen before, slices
/// are decoded against the ones seen last, and everything else is ignored.
pub open spec fn nal_step(cache: CacheView, nal: Seq<u8>) -> NalStep {
    if nal.len() == 0 {
        NalStep::Go(cache)
    } else if nal_type(nal) == NAL_TYPE_SPS {
        match sps_of_nal(nal) {
            Ok(sps) => NalStep::Go(CacheView { sps: Some(sps), ..cache }),
            Err(text) => NalStep::Refused(
                CodecErrorView::Other("VA-API: parse SPS NAL: "@ + text),
            ),
        }
    } else if nal_type(nal) == NAL_TYPE_PPS {
        match pps_of_nal(nal) {
            Ok(pps) => NalStep::Go(CacheView { pps: Some(pps), ..cache }),
            Err(text) => NalStep::Refused(
                CodecErrorView::Other("VA-API: parse PPS NAL: "@ + text),
            ),
        }
    } else if nal_type(nal) == NAL_TYPE_IDR || nal_type(nal) == NAL_TYPE_NON_IDR_SLICE {
        slice_step(cache, nal)
    } else {
        NalStep::Go(cache)
    }
}

/// Where a walk over NAL units ended.
pub enum WalkEnd {
    /// Behind the last one.
    AllDone,
    /// At a slice to decode.
    Slice(TaskView),
    /// At one that is refused.
    Refused(CodecErrorView),
}

/// A walk over NAL units.
pub struct Walk {
    /// The parameter sets at the end.
    pub cache: CacheView,
    /// How many NAL units were taken, the last one included.
    pub taken: nat,
    pub end: WalkEnd,
}

/// The walk over NAL units up to the first slice, or the first refusal.
pub open spec fn walk(cache: CacheView, nals: Seq<Seq<u8>>) -> Walk
    decreases nals.len(),
{
    if nals.len() == 0 {
        Walk { cache, taken: 0, end: WalkEnd::AllDone }
    } else {
        match nal_step(cache, nals[0]) {
            NalStep::Go(next) => {
                let rest = walk(next, nals.skip(1));
                Walk { taken: rest.taken + 1, ..rest }
            },
            NalStep::Slice(task) => Walk { cache, taken: 1, end: WalkEnd::Slice(task) },
            NalStep::Refused(error) => Walk { cache, taken: 1, end: WalkEnd::Refused(error) },
        }
    }
}

/// The NAL units of a packet, and how many of them were taken.
pub struct PacketWalk<'a> {
    nals: Vec<&'a [u8]>,
    taken: usize,
}

/// The state of a [`PacketWalk`].
pub struct PacketView {
    pub nals: Seq<Seq<u8>>,
    pub taken: nat,
}

impl<'a> View for PacketWalk<'a> {
    type V = PacketView;

    closed spec fn view(&self) -> PacketView {
        PacketView { nals: self.nals@.map_values(|nal: &[u8]| nal@), taken: self.taken as nat }
    }
}

impl PacketView {
    /// No more was taken than there is, and every NAL unit can be parsed.
    pub open spec fn wf(self) -> bool {
        &&& self.taken <= self.nals.len()
        &&& forall|i: int|
            0 <= i < self.nals.len() ==> addressable((#[trigger] self.nals[i]).len() + 4)
    }

    /// The NAL units that were not taken yet.
    pub open spec fn rest(self) -> Seq<Seq<u8>> {
        self.nals.skip(self.taken as int)
    }
}

/// A plane of a video frame.
#[derive(Clone, Debug)]
pub struct VideoPlane {
    /// Bytes per row.
    pub stride: usize,
    pub data: Vec<u8>,
}

/// A decoded and cropped frame: luma and two chroma planes.
#[derive(Clone, Debug)]
pub struct VideoFrame {
    pub pts: Option<i64>,
    pub planes: Vec<VideoPlane>,
}

/// `cropped` is the upper left `width x height` of a plane of `src_w` columns.
pub open spec fn is_cropped(
    cropped: VideoPlane,
    samples: Seq<u8>,
    src_w: nat,
    width: nat,
    height: nat,
) -> bool {
    &&& cropped.stride == width
    &&& cropped.data@ == plane(samples, 0, src_w, 1, width, height)
}

/// `video` is a decoded frame cropped to `width x height`.
pub open spec fn is_cropped_frame(
    video: VideoFrame,
    frame: DecodedFrame,
    pts: Option<i64>,
    width: nat,
    height: nat,
) -> bool {
    let half: nat = frame.width as nat / 2;
    &&& video.pts == pts
    &&& video.planes@.len() == 3
    &&& is_cropped(video.planes@[0], frame.y@, frame.width as nat, width, height)
    &&& is_cropped(video.planes@[1], frame.u@, half, width / 2, height / 2)
    &&& is_cropped(video.planes@[2], frame.v@, half, width / 2, height / 2)
}

/// Every plane of a frame holds what a crop to `width x height` takes.
pub open spec fn frame_covers(frame: DecodedFrame, width: nat, height: nat) -> bool {
    let half: nat = frame.width as nat / 2;
    &&& crop_fits(frame.y@.len(), frame.width as nat, width, height)
    &&& crop_fits(frame.u@.len(), half, width / 2, height / 2)
    &&& crop_fits(frame.v@.len(), half, width / 2, height / 2)
}

/// Whether every plane of a frame holds what a crop to `width x height` takes.
pub fn check_frame_covers(frame: &DecodedFrame, width: u32, height: u32) -> (covers: bool)
    ensures
        covers == frame_covers(*frame, width as nat, height as nat),
{
    let half: usize = (frame.width / 2) as usize;
    let half_w: usize = (width / 2) as usize;
    let half_h: usize = (height / 2) as usize;
    check_crop_fits(frame.y.len(), frame.width as usize, width as usize, height as usize)
        && check_crop_fits(frame.u.len(), half, half_w, half_h) && check_crop_fits(
        frame.v.len(),
        half,
        half_w,
        half_h,
    )
}

/// Every NAL unit of a stream lies behind a start code.
proof fn lemma_nal_units_len(buf: Seq<u8>, i: int)
    requires
        0 <= i < nal_units(buf).len(),
    ensures
        nal_units(buf)[i].len() + 3 <= buf.len(),
    decreases buf.len(),
{
    lemma_lead_in(buf);
    let framed = buf.skip(lead_in(buf) as int);
    let body = framed.skip(start_code(framed) as int);
    lemma_lead_in(body);
    if i > 0 {
        lemma_nal_units_len(body, i - 1);
    }
}

/// What an [`H264VaCodecDecoder`] holds.
pub struct CodecView {
    pub codec_id: Seq<char>,
    pub cache: CacheView,
    pub decoder: Option<DecoderView>,
    pub pending: Option<VideoFrame>,
}

/// The streaming decoder: the parameter sets seen last, the inner decoder
/// once the first slice was seen, and the frame that is ready.
pub struct H264VaCodecDecoder {
    codec_id: String,
    decoder: Option<H264VaDecoder>,
    cached_sps: Option<H264Sps>,
    cached_pps: Option<H264Pps>,
    pending: Option<VideoFrame>,
}

impl View for H264VaCodecDecoder {
    type V = CodecView;

    closed spec fn view(&self) -> CodecView {
        CodecView {
            codec_id: self.codec_id@,
            cache: CacheView { sps: self.cached_sps, pps: self.cached_pps },
            decoder: match self.decoder {
                Some(decoder) => Some(decoder@),
                None => None,
            },
            pending: self.pending,
        }
    }
}

impl CodecView {
    /// A kept sequence parameter set has readable code widths, and the inner
    /// decoder has its surface.
    pub open spec fn wf(self) -> bool {
        &&& self.cache.sps matches Some(sps) ==> sps.code_widths_readable()
        &&& self.decoder matches Some(decoder) ==> decoder.wf()
    }
}

impl H264VaCodecDecoder {
    /// A codec that has seen nothing yet.
    pub fn new(codec_id: String) -> (codec: Self)
        ensures
            codec@ == (CodecView {
                codec_id: codec_id@,
                cache: CacheView { sps: None, pps: None },
                decoder: None,
                pending: None,
            }),
            codec@.wf(),
    {
        H264VaCodecDecoder {
            codec_id,
            decoder: None,
            cached_sps: None,
            cached_pps: None,
            pending: None,
        }
    }

    /// The codec id.
    pub fn codec_id(&self) -> (codec_id: &str)
        ensures
            codec_id@ == self@.codec_id,
    {
        self.codec_id.as_str()
    }

    /// The inner decoder.
    pub fn decoder(&self) -> (decoder: Option<&H264VaDecoder>)
        ensures
            match decoder {
                Some(decoder) => self@.decoder == Some(decoder@),
                None => self@.decoder is None,
            },
    {
        match &self.decoder {
            Some(decoder) => Some(decoder),
            None => None,
        }
    }

    /// Begin to take in a packet: its NAL units, none of them taken yet.
    pub fn send_packet<'a>(&self, data: &'a [u8]) -> (packet: PacketWalk<'a>)
        requires
            addressable(data@.len() + 1),
        ensures
            packet@ == (PacketView { nals: nal_units(data@), taken: 0 }),
            packet@.wf(),
    {
        let nals: Vec<&'a [u8]> = oxideav_bitstream::h264::split_annex_b(data);
        let packet = PacketWalk { nals, taken: 0 };
        assert(packet@.nals =~= nal_units(data@));
        assert forall|i: int| 0 <= i < packet@.nals.len() implies addressable(
            (#[trigger] packet@.nals[i]).len() + 4,
        ) by {
            lemma_nal_units_len(data@, i);
        }
        packet
    }

    /// Prepare a slice NAL unit for decoding.
    fn slice_task(&self, nal: &[u8], nal_unit_type: u8) -> (task: Result<SliceTask, CodecError>)
        requires
            self@.wf(),
            nal@.len() > 0,
            addressable(nal@.len() + 4),
            nal_unit_type == nal_type(nal@),
        ensures
            match (task, slice_step(self@.cache, nal@)) {
                (Ok(task), NalStep::Slice(expected)) => task@ == expected
                    && task.sps.code_widths_readable() && addressable(task.access_unit@.len()),
                (Err(error), NalStep::Refused(expected)) => error@ == expected,
                _ => false,
            },
    {
        let sps: H264Sps = match self.cached_sps {
            Some(sps) => sps,
            None => {
                return Err(
                    CodecError::Other(
                        "VA-API: no SPS available before slice (stream malformed?)".to_string(),
                    ),
                );
            },
        };
        let pps: H264Pps = match self.cached_pps {
            Some(pps) => pps,
            None => {
                return Err(
                    CodecError::Other(
                        "VA-API: no PPS available before slice (stream malformed?)".to_string(),
                    ),
                );
            },
        };
        let ebsp: &[u8] = slice_subrange(nal, 1, nal.len());
        let rbsp: Vec<u8> = oxideav_bitstream::nal::ebsp_to_rbsp(ebsp);
        proof {
            lemma_unescaped_len(ebsp@);
            assert(ebsp@ =~= nal@.skip(1));
        }
        match parse_slice_header_minimal(rbsp.as_slice(), nal_unit_type, &sps) {
            Ok(header) => {
                let mut access_unit: Vec<u8> = Vec::new();
                access_unit.push(0);
                access_unit.push(0);
                access_unit.push(0);
                access_unit.push(1);
                access_unit.extend_from_slice(nal);
                assert(access_unit@ =~= seq![0u8, 0u8, 0u8, 1u8] + nal@);
                Ok(SliceTask { sps, pps, header, nal_unit_type, access_unit })
            },
            Err(text) => Err(
                CodecError::Other(joined("VA-API: parse slice header: ", text.as_str())),
            ),
        }
    }

    /// Take NAL units of a packet up to the next slice to decode; `None` when
    /// the packet is used up. A NAL unit that is refused is taken too.
    pub fn next_slice(&mut self, packet: &mut PacketWalk<'_>) -> (slice: Result<
        Option<SliceTask>,
        CodecError,
    >)
        requires
            old(self)@.wf(),
            old(packet)@.wf(),
        ensures
            final(self)@.wf(),
            final(packet)@.wf(),
            ({
                let walked = walk(old(self)@.cache, old(packet)@.rest());
                &&& final(self)@ == (CodecView { cache: walked.cache, ..old(self)@ })
                &&& final(packet)@ == (PacketView {
                    taken: old(packet)@.taken + walked.taken,
                    ..old(packet)@
                })
                &&& match (slice, walked.end) {
                    (Ok(None), WalkEnd::AllDone) => true,
                    (Ok(Some(task)), WalkEnd::Slice(expected)) => task@ == expected
                        && task.sps.code_widths_readable() && addressable(
                        task.access_unit@.len(),
                    ),
                    (Err(error), WalkEnd::Refused(expected)) => error@ == expected,
                    _ => false,
                }
            }),
    {
        while packet.taken < packet.nals.len()
            invariant
                self@.wf(),
                packet@.wf(),
                packet@.nals == old(packet)@.nals,
                packet@.taken >= old(packet)@.taken,
                self@ == (CodecView { cache: self@.cache, ..old(self)@ }),
                walk(old(self)@.cache, old(packet)@.rest()) == ({
                    let ahead = walk(self@.cache, packet@.rest());
                    Walk {
                        taken: (packet@.taken - old(packet)@.taken) as nat + ahead.taken,
                        ..ahead
                    }
                }),
            decreases packet@.nals.len() - packet@.taken,
        {
            let ghost cache = self@.cache;
            let ghost rest = packet@.rest();
            let nal: &[u8] = packet.nals[packet.taken];
            assert(packet@.nals[packet@.taken as int] == nal@);
            assert(rest[0] == nal@);
            packet.taken = packet.taken + 1;
            assert(packet@.rest() =~= rest.skip(1));
            if nal.len() == 0 {
                continue;
            }
            let (_, _, kind): (u8, u8, u8) = oxideav_bitstream::h264::nal_header(nal[0]);
            if kind == NAL_TYPE_SPS {
                match parse_sps_nal(nal) {
                    Ok(sps) => {
                        self.cached_sps = Some(sps);
                    },
                    Err(text) => {
                        return Err(
                            CodecError::Other(joined("VA-API: parse SPS NAL: ", text.as_str())),
                        );
                    },
                }
            } else if kind == NAL_TYPE_PPS {
                match parse_pps_nal(nal) {
                    Ok(pps) => {
                        self.cached_pps = Some(pps);
                    },
                    Err(text) => {
                        return Err(
                            CodecError::Other(joined("VA-API: parse PPS NAL: ", text.as_str())),
                        );
                    },
                }
            } else if kind == NAL_TYPE_IDR || kind == NAL_TYPE_NON_IDR_SLICE {
                let task: SliceTask = self.slice_task(nal, kind)?;
                return Ok(Some(task));
            }
        }
        Ok(None)
    }

    /// The decoder to set up before `task` is decoded; `None` when there is
    /// one already.
    pub fn decoder_plan(&self, dpy: VADisplay, task: &SliceTask) -> (plan: Option<DecoderPlan>)
        ensures
            plan == match self@.decoder {
                Some(_) => None,
                None => Some(DecoderPlan { dpy, sps: task.sps }),
            },
    {
        match self.decoder {
            Some(_) => None,
            None => Some(H264VaDecoder::from_sps(dpy, &task.sps)),
        }
    }

    /// Keep the inner decoder.
    pub fn install_decoder(&mut self, decoder: H264VaDecoder)
        requires
            old(self)@.wf(),
            decoder@.wf(),
        ensures
            final(self)@.wf(),
            final(self)@ == (CodecView { decoder: Some(decoder@), ..old(self)@ }),
    {
        self.decoder = Some(decoder);
    }

    /// Crop a decoded frame to the display rectangle, and have it ready.
    pub fn finish_slice(&mut self, frame: &DecodedFrame, pts: Option<i64>)
        requires
            old(self)@.wf(),
            old(self)@.decoder matches Some(decoder) && frame_covers(
                *frame,
                decoder.display_width as nat,
                decoder.display_height as nat,
            ),
        ensures
            final(self)@.wf(),
            final(self)@ == (CodecView { pending: final(self)@.pending, ..old(self)@ }),
            final(self)@.pending matches Some(video) && is_cropped_frame(
                video,
                *frame,
                pts,
                old(self)@.decoder->0.display_width as nat,
                old(self)@.decoder->0.display_height as nat,
            ),
    {
        let decoder: &H264VaDecoder = self.decoder.as_ref().unwrap();
        let w: usize = decoder.display_width() as usize;
        let h: usize = decoder.display_height() as usize;
        let src_w: usize = frame.width as usize;
        let src_h: usize = frame.height as usize;
        let mut planes: Vec<VideoPlane> = Vec::new();
        planes.push(
            VideoPlane { stride: w, data: crop_plane(frame.y.as_slice(), src_w, src_h, w, h) },
        );
        planes.push(
            VideoPlane {
                stride: w / 2,
                data: crop_plane(frame.u.as_slice(), src_w / 2, src_h / 2, w / 2, h / 2),
            },
        );
        planes.push(
            VideoPlane {
                stride: w / 2,
                data: crop_plane(frame.v.as_slice(), src_w / 2, src_h / 2, w / 2, h / 2),
            },
        );
        self.pending = Some(VideoFrame { pts, planes });
    }

    /// Hand out the frame that is ready.
    pub fn receive_frame(&mut self) -> (frame: Result<VideoFrame, CodecError>)
        requires
            old(self)@.wf(),
        ensures
            final(self)@.wf(),
            final(self)@ == (CodecView { pending: None, ..old(self)@ }),
            match frame {
                Ok(frame) => old(self)@.pending == Some(frame),
                Err(error) => old(self)@.pending is None && error@ == CodecErrorView::NeedMore,
            },
    {
        match self.pending.take() {
            Some(frame) => Ok(frame),
            None => Err(CodecError::NeedMore),
        }
    }

    /// Nothing is held back, so there is nothing to flush.
    pub fn flush(&mut self) -> (flushed: Result<(), CodecError>)
        ensures
            flushed is Ok,
            final(self)@ == old(self)@,
    {
        Ok(())
    }
}

/// Packet boundaries make no difference. A run of NAL units that hold no
/// slice can end a packet: what follows in the next packet is walked as if it
/// followed in the same one, against the same parameter sets.
pub proof fn law_packet_boundaries_do_not_matter(
    cache: CacheView,
    first: Seq<Seq<u8>>,
    second: Seq<Seq<u8>>,
)
    requires
        walk(cache, first).end is AllDone,
    ensures
        walk(cache, first + second).end == walk(walk(cache, first).cache, second).end,
        walk(cache, first + second).cache == walk(walk(cache, first).cache, second).cache,
        walk(cache, first + second).taken == first.len() + walk(
            walk(cache, first).cache,
            second,
        ).taken,
    decreases first.len(),
{
    if first.len() == 0 {
        assert(first + second =~= second);
    } else if let NalStep::Go(next) = nal_step(cache, first[0]) {
        law_packet_boundaries_do_not_matter(next, first.skip(1), second);
        assert((first + second).skip(1) =~= first.skip(1) + second);
    }
}

/// A slice that comes before a sequence parameter set, or before a picture
/// parameter set, is refused.
pub proof fn law_slice_needs_parameter_sets(cache: CacheView, nal: Seq<u8>)
    requires
        nal.len() > 0,
        nal_type(nal) == NAL_TYPE_IDR || nal_type(nal) == NAL_TYPE_NON_IDR_SLICE,
        cache.sps is None || cache.pps is None,
    ensures
        nal_step(cache, nal) is Refused,
{
}

/// NAL units that are neither slices nor parameter sets, and empty ones,
/// change nothing.
pub proof fn law_other_nal_units_are_ignored(cache: CacheView, nal: Seq<u8>)
    requires
        nal.len() == 0 || (nal_type(nal) != NAL_TYPE_SPS && nal_type(nal) != NAL_TYPE_PPS
            && nal_type(nal) != NAL_TYPE_IDR && nal_type(nal) != NAL_TYPE_NON_IDR_SLICE),
    ensures
        nal_step(cache, nal) == NalStep::Go(cache),
{
}

/// A slice behind a sequence and a picture parameter set is decoded against
/// these two, whatever was seen before.
pub proof fn law_slice_uses_latest_parameter_sets(
    cache: CacheView,
    sps_nal: Seq<u8>,
    pps_nal: Seq<u8>,
    slice_nal: Seq<u8>,
)
    requires
        sps_nal.len() > 0 && nal_type(sps_nal) == NAL_TYPE_SPS,
        pps_nal.len() > 0 && nal_type(pps_nal) == NAL_TYPE_PPS,
        slice_nal.len() > 0,
        nal_type(slice_nal) == NAL_TYPE_IDR || nal_type(slice_nal) == NAL_TYPE_NON_IDR_SLICE,
        sps_of_nal(sps_nal) is Ok,
        pps_of_nal(pps_nal) is Ok,
    ensures
        ({
            let (sps, pps) = (sps_of_nal(sps_nal)->Ok_0, pps_of_nal(pps_nal)->Ok_0);
            let walked = walk(cache, seq![sps_nal, pps_nal, slice_nal]);
            &&& walked.taken == 3
            &&& walked.cache == (CacheView { sps: Some(sps), pps: Some(pps) })
            &&& walked.end is Slice || walked.end is Refused
            &&& walked.end matches WalkEnd::Slice(task) ==> task.sps == sps && task.pps == pps
                && task.access_unit == seq![0u8, 0u8, 0u8, 1u8] + slice_nal
        }),
{
    let nals = seq![sps_nal, pps_nal, slice_nal];
    assert(nals.skip(1) =~= seq![pps_nal, slice_nal]);
    assert(nals.skip(1).skip(1) =~= seq![slice_nal]);
    assert(nals.skip(1).skip(1).skip(1) =~= seq![]);
    reveal_with_fuel(walk, 4);
}

/// A slice to decode is framed for the decoder: its NAL unit, of the slice's
/// own type, begins right behind a four-byte start code.
pub proof fn law_slice_task_is_framed(cache: CacheView, nals: Seq<Seq<u8>>)
    ensures
        walk(cache, nals).end matches WalkEnd::Slice(task) ==> {
            &&& start_code(task.access_unit) == 4
            &&& task.access_unit.len() > 4
            &&& task.access_unit[4] & 0x1f == task.nal_unit_type
            &&& task.nal_unit_type == NAL_TYPE_IDR || task.nal_unit_type == NAL_TYPE_NON_IDR_SLICE
        },
    decreases nals.len(),
{
    if nals.len() > 0 {
        match nal_step(cache, nals[0]) {
            NalStep::Go(next) => {
                law_slice_task_is_framed(next, nals.skip(1));
            },
            NalStep::Slice(task) => {
                assert(task.access_unit.subrange(0, 4) =~= seq![0u8, 0u8, 0u8, 1u8]);
            },
            NalStep::Refused(_) => {},
        }
    }
}

/// A frame that is handed out is packed: luma has exactly one byte for each
/// pixel of the display rectangle, and each chroma plane one for each pair of
/// columns and rows.
pub proof fn law_cropped_frame_is_packed(
    video: VideoFrame,
    frame: DecodedFrame,
    pts: Option<i64>,
    width: nat,
    height: nat,
)
    requires
        is_cropped_frame(video, frame, pts, width, height),
    ensures
        video.planes@[0].data@.len() == video.planes@[0].stride * height == width * height,
        video.planes@[1].data@.len() == video.planes@[1].stride * (height / 2) == (width / 2) * (
        height / 2),
        video.planes@[2].data@.len() == video.planes@[1].data@.len(),
{
}

/// A frame whose planes have their full sizes can be cropped to any rectangle
/// within its dimensions. (No allocation is larger than `isize::MAX` bytes.)
pub proof fn law_whole_frames_can_be_cropped(frame: DecodedFrame, width: nat, height: nat)
    requires
        frame@.wf(),
        frame.y@.len() <= isize::MAX,
        width <= frame.width,
        height <= frame.height,
    ensures
        frame_covers(frame, width, height),
{
    let (src_w, src_h) = (frame.width as nat, frame.height as nat);
    assert((src_w / 2) * (src_h / 2) <= src_w * src_h) by (nonlinear_arith);
    lemma_crop_fits(src_w, src_h, width, height);
    lemma_crop_fits(src_w / 2, src_h / 2, width / 2, height / 2);
}

proof fn lemma_crop_fits(src_w: nat, src_h: nat, width: nat, height: nat)
    requires
        src_w * src_h <= isize::MAX,
        width <= src_w,
        height <= src_h,
    ensures
        crop_fits(src_w * src_h, src_w, width, height),
{
    assert(width * height <= src_w * src_h) by (nonlinear_arith)
        requires
            width <= src_w,
            height <= src_h,
    ;
    if height > 0 {
        assert((height - 1) * src_w + width <= src_w * src_h) by (nonlinear_arith)
            requires
                width <= src_w,
                1 <= height <= src_h,
        ;
    }
}

/// The type of a NAL unit is its first byte modulo 32.
proof fn lemma_nal_type(nal: Seq<u8>)
    ensures
        nal_type(nal) == nal[0] % 32,
{
    let first = nal[0];
    assert(first & 0x1f == first % 32) by (bit_vector);
}

/// A slice of either type, IDR (5) or not (1), is refused exactly when its
/// leading header fields are unreadable. Otherwise it is to be decoded, with
/// those fields, against both parameter sets, as its NAL unit behind the start
/// code 0 0 0 1. The parameter sets stay.
pub proof fn law_slices_of_either_type_are_decoded(
    sps: H264Sps,
    pps: H264Pps,
    nal: Seq<u8>,
    rest: Seq<Seq<u8>>,
)
    requires
        nal.len() > 0,
        nal[0] % 32 == 1 || nal[0] % 32 == 5,
    ensures
        ({
            let cache = CacheView { sps: Some(sps), pps: Some(pps) };
            let walked = walk(cache, seq![nal] + rest);
            let fields = leading_fields(sps, (nal[0] % 32) as u8, unescaped(nal.skip(1)));
            &&& walked.cache == cache
            &&& walked.taken == 1
            &&& walked.end is Refused <==> fields is None
            &&& fields is None ==> walked.end == WalkEnd::Refused(
                CodecErrorView::Other("VA-API: parse slice header: "@ + golomb_message()),
            )
            &&& fields matches Some(header) ==> (walked.end matches WalkEnd::Slice(task) && task.sps
                == sps && task.pps == pps && task.header == header && task.nal_unit_type == nal[0]
                % 32 && task.access_unit.len() == nal.len() + 4 && task.access_unit[0] == 0
                && task.access_unit[1] == 0 && task.access_unit[2] == 0 && task.access_unit[3] == 1
                && task.access_unit.skip(4) == nal)
        }),
{
    lemma_nal_type(nal);
    let nals = seq![nal] + rest;
    assert(nals[0] == nal);
    assert((seq![0u8, 0u8, 0u8, 1u8] + nal).skip(4) =~= nal);
}

/// A slice without a sequence parameter set, or else without a picture
/// parameter set, is refused with the one that is missing.
pub proof fn law_missing_parameter_sets_are_named(
    cache: CacheView,
    nal: Seq<u8>,
    rest: Seq<Seq<u8>>,
)
    requires
        nal.len() > 0,
        nal[0] % 32 == 1 || nal[0] % 32 == 5,
    ensures
        ({
            let walked = walk(cache, seq![nal] + rest);
            &&& cache.sps is None ==> walked.taken == 1 && walked.cache == cache && walked.end
                == WalkEnd::Refused(
                CodecErrorView::Other(
                    "VA-API: no SPS available before slice (stream malformed?)"@,
                ),
            )
            &&& cache.sps is Some && cache.pps is None ==> walked.taken == 1 && walked.cache
                == cache && walked.end == WalkEnd::Refused(
                CodecErrorView::Other(
                    "VA-API: no PPS available before slice (stream malformed?)"@,
                ),
            )
        }),
{
    lemma_nal_type(nal);
    assert((seq![nal] + rest)[0] == nal);
}

/// A sequence parameter set (7) replaces the one seen before and leaves the
/// picture parameter set; a picture parameter set (8) does the opposite. One
/// that cannot be parsed is refused with the parser's text, and replaces none.
pub proof fn law_parameter_sets_replace_their_own_kind(
    cache: CacheView,
    nal: Seq<u8>,
    rest: Seq<Seq<u8>>,
)
    requires
        nal.len() > 0,
        nal[0] % 32 == 7 || nal[0] % 32 == 8,
    ensures
        ({
            let walked = walk(cache, seq![nal] + rest);
            let ahead = |next: CacheView| (walk(next, rest).end, walk(next, rest).cache);
            &&& nal[0] % 32 == 7 ==> match sps_of_nal(nal) {
                Ok(sps) => (walked.end, walked.cache) == ahead(
                    CacheView { sps: Some(sps), pps: cache.pps },
                ) && walked.taken == walk(CacheView { sps: Some(sps), pps: cache.pps }, rest).taken
                    + 1,
                Err(text) => walked.taken == 1 && walked.cache == cache && walked.end
                    == WalkEnd::Refused(CodecErrorView::Other("VA-API: parse SPS NAL: "@ + text)),
            }
            &&& nal[0] % 32 == 8 ==> match pps_of_nal(nal) {
                Ok(pps) => (walked.end, walked.cache) == ahead(
                    CacheView { sps: cache.sps, pps: Some(pps) },
                ) && walked.taken == walk(CacheView { sps: cache.sps, pps: Some(pps) }, rest).taken
                    + 1,
                Err(text) => walked.taken == 1 && walked.cache == cache && walked.end
                    == WalkEnd::Refused(CodecErrorView::Other("VA-API: parse PPS NAL: "@ + text)),
            }
        }),
{
    lemma_nal_type(nal);
    let nals = seq![nal] + rest;
    assert(nals[0] == nal);
    assert(nals.skip(1) =~= rest);
}

/// An empty NAL unit, and one of any type but 1, 5, 7 and 8, is passed over:
/// what follows is walked as if it were not there.
pub proof fn law_other_nal_units_are_passed_over(
    cache: CacheView,
    nal: Seq<u8>,
    rest: Seq<Seq<u8>>,
)
    requires
        nal.len() > 0 ==> nal[0] % 32 != 1 && nal[0] % 32 != 5 && nal[0] % 32 != 7 && nal[0] % 32
            != 8,
    ensures
        walk(cache, seq![nal] + rest).end == walk(cache, rest).end,
        walk(cache, seq![nal] + rest).cache == walk(cache, rest).cache,
        walk(cache, seq![nal] + rest).taken == walk(cache, rest).taken + 1,
{
    lemma_nal_type(nal);
    let nals = seq![nal] + rest;
    assert(nals[0] == nal);
    assert(nals.skip(1) =~= rest);
}

/// Taking a slice from a packet takes NAL units in order, keeps the inner
/// decoder and the frame that is ready, and ends where the walk over what was
/// left of the packet ends.
pub proof fn law_next_slice_walks_the_packet(
    codec: &mut H264VaCodecDecoder,
    packet: &mut PacketWalk<'_>,
    slice: Result<Option<SliceTask>, CodecError>,
)
    requires
        call_ensures(H264VaCodecDecoder::next_slice, (codec, packet), slice),
    ensures
        ({
            let walked = walk(old(codec)@.cache, old(packet)@.nals.skip(old(packet)@.taken as int));
            &&& final(codec)@.cache == walked.cache
            &&& final(codec)@.decoder == old(codec)@.decoder
            &&& final(codec)@.pending == old(codec)@.pending
            &&& final(codec)@.codec_id == old(codec)@.codec_id
            &&& final(packet)@.nals == old(packet)@.nals
            &&& final(packet)@.taken == old(packet)@.taken + walked.taken
            &&& (slice matches Ok(None)) == (walked.end is AllDone)
            &&& slice matches Ok(Some(task)) ==> walked.end == WalkEnd::Slice(task@)
            &&& slice matches Err(error) ==> walked.end == WalkEnd::Refused(error@)
        }),
{
}

/// A packet is taken apart at its start codes; nothing of it is taken yet.
pub proof fn law_packets_begin_untaken<'a>(
    codec: &H264VaCodecDecoder,
    data: &'a [u8],
    packet: PacketWalk<'a>,
)
    requires
        call_ensures(H264VaCodecDecoder::send_packet, (codec, data), packet),
    ensures
        packet@.taken == 0,
        packet@.nals == nal_units(data@),
{
}

/// The samples of a frame that is ready are those of the decoded frame, at the
/// same rows and columns, up to the display size; chroma has half of either.
/// Rows are packed, the time stamp is the packet's, and the rest of the codec
/// stays.
pub proof fn law_finished_frames_hold_the_decoded_samples(
    codec: &mut H264VaCodecDecoder,
    frame: &DecodedFrame,
    pts: Option<i64>,
    decoder: DecoderView,
    row: nat,
    col: nat,
)
    requires
        call_ensures(H264VaCodecDecoder::finish_slice, (codec, frame, pts), ()),
        old(codec)@.decoder == Some(decoder),
    ensures
        final(codec)@.decoder == old(codec)@.decoder,
        final(codec)@.cache == old(codec)@.cache,
        final(codec)@.codec_id == old(codec)@.codec_id,
        final(codec)@.pending matches Some(video) && {
            let (width, height) = (decoder.display_width as nat, decoder.display_height as nat);
            &&& video.pts == pts
            &&& video.planes@.len() == 3
            &&& video.planes@[0].stride == width
            &&& video.planes@[1].stride == width / 2
            &&& video.planes@[2].stride == width / 2
            &&& video.planes@[0].data@.len() == width * height
            &&& video.planes@[1].data@.len() == (width / 2) * (height / 2)
            &&& video.planes@[2].data@.len() == (width / 2) * (height / 2)
            &&& row < height && col < width ==> video.planes@[0].data@[(row * width + col) as int]
                == frame.y@[(row * frame.width as nat + col) as int]
            &&& row < height / 2 && col < width / 2 ==> video.planes@[1].data@[(row * (width / 2)
                + col) as int] == frame.u@[(row * (frame.width as nat / 2) + col) as int]
            &&& row < height / 2 && col < width / 2 ==> video.planes@[2].data@[(row * (width / 2)
                + col) as int] == frame.v@[(row * (frame.width as nat / 2) + col) as int]
        },
{
    let (width, height) = (decoder.display_width as nat, decoder.display_height as nat);
    let (src_w, half) = (frame.width as nat, frame.width as nat / 2);
    if row < height && col < width {
        lemma_plane_sample(frame.y@, 0, src_w, 1, width, height, row, col);
    }
    if row < height / 2 && col < width / 2 {
        lemma_plane_sample(frame.u@, 0, half, 1, width / 2, height / 2, row, col);
        lemma_plane_sample(frame.v@, 0, half, 1, width / 2, height / 2, row, col);
    }
}

/// A frame that is ready is handed out once: after that more is needed.
pub proof fn law_frames_are_handed_out_once(
    first: &mut H264VaCodecDecoder,
    second: &mut H264VaCodecDecoder,
    frame: Result<VideoFrame, CodecError>,
    again: Result<VideoFrame, CodecError>,
)
    requires
        call_ensures(H264VaCodecDecoder::receive_frame, (first,), frame),
        old(second)@ == final(first)@,
        call_ensures(H264VaCodecDecoder::receive_frame, (second,), again),
    ensures
        old(first)@.pending matches Some(video) ==> frame == Ok::<VideoFrame, CodecError>(video),
        old(first)@.pending is None ==> frame matches Err(CodecError::NeedMore),
        again matches Err(CodecError::NeedMore),
        final(first)@.cache == old(first)@.cache && final(first)@.decoder == old(first)@.decoder,
{
    if let Err(error) = again {
        assert(error@ == CodecErrorView::NeedMore);
    }
    if let Err(error) = frame {
        assert(error@ == CodecErrorView::NeedMore);
    }
}

/// The first slice brings a decoder, of its own sequence parameter set; later
/// slices bring none.
pub proof fn law_first_slice_brings_the_decoder(
    codec: &H264VaCodecDecoder,
    dpy: VADisplay,
    task: &SliceTask,
    plan: Option<DecoderPlan>,
)
    requires
        call_ensures(H264VaCodecDecoder::decoder_plan, (codec, dpy, task), plan),
    ensures
        plan is Some <==> codec@.decoder is None,
        plan matches Some(plan) ==> plan.dpy == dpy && plan.sps == task.sps,
{
}

/// The texts of the codec's errors, and the device it opens: the first one
/// unless another was asked for.
pub proof fn law_codec_reports(
    error: &VaError,
    opened: CodecError,
    set_up: CodecError,
    decoded: CodecError,
    asked: Option<u32>,
    device: u32,
)
    requires
        call_ensures(open_error, (error,), opened),
        call_ensures(setup_error, (error,), set_up),
        call_ensures(decode_error, (error,), decoded),
        call_ensures(selected_device, (asked,), device),
    ensures
        opened@ == CodecErrorView::Unsupported(
            "VA-API: open DRM render node failed: "@ + error@.text(),
        ),
        set_up@ == CodecErrorView::Other("VA-API: H264VaDecoder::from_sps: "@ + error@.text()),
        decoded@ == CodecErrorView::Other("VA-API: decode_slice: "@ + error@.text()),
        asked is None ==> device == 0,
        asked matches Some(index) ==> device == index,
{
}

/// A frame covers a display rectangle exactly where each of its planes does:
/// luma whole, chroma at half the width and half the height.
pub proof fn law_frames_cover_with_every_plane(
    frame: &DecodedFrame,
    width: u32,
    height: u32,
    covers: bool,
)
    requires
        call_ensures(check_frame_covers, (frame, width, height), covers),
    ensures
        covers <==> crop_fits(frame.y@.len(), frame.width as nat, width as nat, height as nat)
            && crop_fits(
            frame.u@.len(),
            frame.width as nat / 2,
            width as nat / 2,
            height as nat / 2,
        ) && crop_fits(frame.v@.len(), frame.width as nat / 2, width as nat / 2, height as nat / 2),
{
}

/// A codec begins with nothing but its id, tells its parts, keeps the decoder
/// that it is given, and has nothing to flush.
pub proof fn law_codecs_begin_empty(
    codec_id: String,
    new: H264VaCodecDecoder,
    told: &H264VaCodecDecoder,
    text: &str,
    inner: Option<&H264VaDecoder>,
    holder: &mut H264VaCodecDecoder,
    decoder: H264VaDecoder,
    flushed: &mut H264VaCodecDecoder,
    outcome: Result<(), CodecError>,
)
    requires
        call_ensures(H264VaCodecDecoder::new, (codec_id,), new),
        call_ensures(H264VaCodecDecoder::codec_id, (told,), text),
        call_ensures(H264VaCodecDecoder::decoder, (told,), inner),
        call_ensures(H264VaCodecDecoder::install_decoder, (holder, decoder), ()),
        call_ensures(H264VaCodecDecoder::flush, (flushed,), outcome),
    ensures
        new@.codec_id == codec_id@,
        new@.cache.sps is None && new@.cache.pps is None,
        new@.decoder is None && new@.pending is None,
        text@ == told@.codec_id,
        inner is Some <==> told@.decoder is Some,
        inner matches Some(inner) ==> told@.decoder == Some(inner@),
        final(holder)@.decoder == Some(decoder@),
        final(holder)@.cache == old(holder)@.cache,
        final(holder)@.pending == old(holder)@.pending,
        final(holder)@.codec_id == old(holder)@.codec_id,
        outcome is Ok,
        final(flushed)@ == old(flushed)@,
{
}

} // verus!
