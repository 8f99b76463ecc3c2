//! The H.264 decoder: what it asks the driver for, and the slices it submits.

use vstd::prelude::*;
use vstd::slice::slice_subrange;

use crate::bitstream::addressable;
use crate::bitstream::idr_of_stream;
use crate::bitstream::is_idr_tail;
use crate::bitstream::parse_idr_slice;
use crate::bitstream::parse_idr_sps;
use crate::config::Config;
use crate::config::ConfigView;
use crate::context::Context;
use crate::context::ContextRequest;
use crate::context::ContextSetup;
use crate::context::ContextSetupView;
use crate::context::ContextView;
use crate::error::VaError;
use crate::error::VaErrorView;
use crate::h264::H264Pps;
use crate::h264::H264SliceHeader;
use crate::h264::H264Sps;
use crate::h264::NAL_TYPE_IDR;
use crate::params::build_pic_param;
use crate::params::build_slice_param;
use crate::params::is_pic_param;
use crate::params::is_slice_param;
use crate::params::law_picture_word_is_a_sum;
use crate::params::law_sequence_word_is_a_sum;
use crate::readback::ReadBack;
use crate::slice_header::compute_slice_data_bit_offset;
use crate::slice_header::law_offset_covers_nal_header;
use crate::slice_header::law_offset_needs_nal_header;
use crate::slice_header::slice_data_bit_offset;
use crate::slice_header::start_code;
use crate::slice_header::start_code_len;
use crate::slice_header::HeaderFault;
use crate::submission::Submission;
use crate::submission::SubmissionView;
use crate::submission::SubmitAction;
use crate::sys::entrypoint::VAEntrypointVLD;
use crate::sys::profile::VAProfileH264High;
use crate::sys::release_views;
use crate::sys::CallReply;
use crate::sys::Release;
use crate::sys::ReleaseView;
use crate::sys::VAConfigID;
use crate::sys::VADisplay;
use crate::sys::VAIQMatrixBufferH264;
use crate::sys::VAPictureParameterBufferH264;
use crate::sys::VASliceParameterBufferH264;
use crate::sys::VASurfaceID;
use crate::text::joined;

verus! {

/// The error that reports a text of the bitstream parser.
pub open spec fn parser_error(text: Seq<char>) -> VaErrorView {
    VaErrorView::Va { status: 0, message: "bitstream parser: "@ + text }
}

fn report_parser_error(text: String) -> (error: VaError)
    ensures
        error@ == parser_error(text@),
{
    VaError::Va { status: 0, message: joined("bitstream parser: ", text.as_str()) }
}

/// A decoder to be: the display and the sequence parameter set that fixes
/// its dimensions.
#[derive(Clone, Copy, Debug)]
pub struct DecoderPlan {
    pub dpy: VADisplay,
    pub sps: H264Sps,
}

/// A decoder that could not be set up, with the configuration to give back.
pub struct FailedSetup {
    pub config: Config,
    pub error: VaError,
}

impl DecoderPlan {
    /// The profile of the decoder's configuration.
    pub fn profile(&self) -> (profile: i32)
        ensures
            profile == VAProfileH264High,
    {
        VAProfileH264High
    }

    /// The entrypoint of the decoder's configuration.
    pub fn entrypoint(&self) -> (entrypoint: i32)
        ensures
            entrypoint == VAEntrypointVLD,
    {
        VAEntrypointVLD
    }

    /// The context that the decoder needs: one surface of the coded size.
    pub open spec fn context_request(self, config: VAConfigID) -> ContextRequest {
        ContextRequest {
            dpy: self.dpy,
            config,
            width: self.sps.coded_columns() as u32,
            height: self.sps.coded_rows() as u32,
            num_surfaces: 1,
        }
    }

    /// Take in the reply to `vaCreateConfig`, and begin to set up the context.
    pub fn config_created(&self, call: CallReply, id: VAConfigID) -> (step: Result<
        (Config, ContextSetup),
        VaError,
    >)
        requires
            self.sps.dimensions_fit(),
        ensures
            match step {
                Ok((config, setup)) => call.ok() && config@ == (ConfigView {
                    dpy: self.dpy,
                    id,
                    profile: VAProfileH264High,
                    entrypoint: VAEntrypointVLD,
                }) && setup@ == ContextSetupView::initial(self.context_request(id)) && setup@.wf(),
                Err(error) => !call.ok() && error@ == call.failure(),
            },
    {
        let config: Config = Config::new(
            self.dpy,
            VAProfileH264High,
            VAEntrypointVLD,
            call,
            id,
        )?;
        let setup: ContextSetup = Context::new(
            ContextRequest {
                dpy: self.dpy,
                config: id,
                width: self.sps.coded_width(),
                height: self.sps.coded_height(),
                num_surfaces: 1,
            },
        )?;
        Ok((config, setup))
    }

    /// Take in the outcome of the context setup: the decoder, or what failed.
    pub fn context_created(&self, config: Config, context: Result<Context, VaError>) -> (decoder:
        Result<H264VaDecoder, FailedSetup>)
        requires
            self.sps.dimensions_fit(),
            context matches Ok(context) ==> context@.surfaces.len() == 1,
        ensures
            match (decoder, context) {
                (Ok(decoder), Ok(context)) => decoder@ == (DecoderView {
                    dpy: self.dpy,
                    coded_width: self.sps.coded_columns() as u32,
                    coded_height: self.sps.coded_rows() as u32,
                    display_width: self.sps.display_columns() as u32,
                    display_height: self.sps.display_rows() as u32,
                    config: config@,
                    context: context@,
                }) && decoder@.wf(),
                (Err(failed), Err(error)) => failed.config@ == config@ && failed.error@ == error@,
                _ => false,
            },
    {
        match context {
            Ok(context) => Ok(
                H264VaDecoder {
                    dpy_raw: self.dpy,
                    coded_width: self.sps.coded_width(),
                    coded_height: self.sps.coded_height(),
                    display_width: self.sps.display_width(),
                    display_height: self.sps.display_height(),
                    config,
                    context,
                },
            ),
            Err(error) => Err(FailedSetup { config, error }),
        }
    }
}

/// What an [`H264VaDecoder`] holds.
pub struct DecoderView {
    pub dpy: VADisplay,
    pub coded_width: u32,
    pub coded_height: u32,
    pub display_width: u32,
    pub display_height: u32,
    pub config: ConfigView,
    pub context: ContextView,
}

impl DecoderView {
    /// The decoder has one surface.
    pub open spec fn wf(self) -> bool {
        self.context.surfaces.len() == 1
    }

    /// The surface that the decoder renders into.
    pub open spec fn surface(self) -> VASurfaceID {
        self.context.surfaces[0]
    }
}

/// An H.264 decoder: a configuration, a context with one surface, and the
/// dimensions of its pictures.
pub struct H264VaDecoder {
    dpy_raw: VADisplay,
    coded_width: u32,
    coded_height: u32,
    display_width: u32,
    display_height: u32,
    config: Config,
    context: Context,
}

impl View for H264VaDecoder {
    type V = DecoderView;

    closed spec fn view(&self) -> DecoderView {
        DecoderView {
            dpy: self.dpy_raw,
            coded_width: self.coded_width,
            coded_height: self.coded_height,
            display_width: self.display_width,
            display_height: self.display_height,
            config: self.config@,
            context: self.context@,
        }
    }
}

/// What the driver is given for one slice, and the calls that give it.
pub struct SliceJob {
    pub pic_param: VAPictureParameterBufferH264,
    pub iq_matrix: VAIQMatrixBufferH264,
    pub slice_param: VASliceParameterBufferH264,
    /// The bytes that hold the slice NAL unit.
    pub slice_data: Vec<u8>,
    pub submission: Submission,
}

/// `job` submits `slice_data` to a decoder. The slice is the NAL unit whose
/// header byte lies at `nal_offset` of the data, and its entropy-coded part
/// begins `bit_offset` bits behind the beginning of that byte. (Sizes and
/// offsets are counted modulo 2^32.)
pub open spec fn is_slice_job(
    job: SliceJob,
    sps: H264Sps,
    pps: H264Pps,
    header: H264SliceHeader,
    slice_data: Seq<u8>,
    nal_offset: nat,
    bit_offset: nat,
    decoder: DecoderView,
) -> bool {
    &&& is_pic_param(job.pic_param, sps, pps, header, decoder.surface())
    &&& job.iq_matrix.is_flat()
    &&& is_slice_param(
        job.slice_param,
        pps,
        header,
        (slice_data.len() % 0x1_0000_0000) as u32,
        (nal_offset % 0x1_0000_0000) as u32,
        bit_offset as u16,
    )
    &&& job.slice_data@ == slice_data
    &&& job.submission@ == SubmissionView::initial(decoder.context.id, decoder.surface())
    &&& job.submission@.wf()
}

impl H264VaDecoder {
    /// Begin to set up a decoder for the stream in `annex_b`, from the
    /// sequence parameter set of its first IDR picture.
    pub fn new(dpy: VADisplay, annex_b: &[u8]) -> (plan: Result<DecoderPlan, VaError>)
        requires
            addressable(annex_b@.len()),
        ensures
            match (plan, idr_of_stream(annex_b@)) {
                (Ok(plan), Ok(idr)) => plan == (DecoderPlan { dpy, sps: idr.sps }),
                (Err(error), Err(text)) => error@ == parser_error(text),
                _ => false,
            },
    {
        match parse_idr_sps(annex_b) {
            Ok(sps) => Ok(H264VaDecoder::from_sps(dpy, &sps)),
            Err(text) => Err(report_parser_error(text)),
        }
    }

    /// Begin to set up a decoder for a sequence parameter set.
    pub fn from_sps(dpy: VADisplay, sps: &H264Sps) -> (plan: DecoderPlan)
        ensures
            plan == (DecoderPlan { dpy, sps: *sps }),
    {
        DecoderPlan { dpy, sps: *sps }
    }

    /// Coded width: whole macroblocks.
    pub fn coded_width(&self) -> (width: u32)
        ensures
            width == self@.coded_width,
    {
        self.coded_width
    }

    /// Coded height: whole macroblocks.
    pub fn coded_height(&self) -> (height: u32)
        ensures
            height == self@.coded_height,
    {
        self.coded_height
    }

    /// Width after cropping.
    pub fn display_width(&self) -> (width: u32)
        ensures
            width == self@.display_width,
    {
        self.display_width
    }

    /// Height after cropping.
    pub fn display_height(&self) -> (height: u32)
        ensures
            height == self@.display_height,
    {
        self.display_height
    }

    /// The surface that the decoder renders into.
    pub fn surface(&self) -> (surface: VASurfaceID)
        requires
            self@.wf(),
        ensures
            surface == self@.surface(),
    {
        self.context.surfaces()[0]
    }

    /// The context of the decoder.
    pub fn context(&self) -> (context: &Context)
        ensures
            context@ == self@.context,
    {
        &self.context
    }

    /// The calls that give the decoder back, in order.
    pub fn releases(&self) -> (releases: Vec<Release>)
        ensures
            release_views(releases@) == seq![
                ReleaseView::DestroyConfig(self@.config.id),
                ReleaseView::DestroyContext(self@.context.id),
                ReleaseView::DestroySurfaces(self@.context.surfaces),
            ],
    {
        let mut releases: Vec<Release> = self.config.releases();
        let mut rest: Vec<Release> = self.context.releases();
        let ghost (first, second) = (releases@, rest@);
        releases.append(&mut rest);
        assert(release_views(releases@) =~= release_views(first) + release_views(second));
        assert(release_views(releases@) =~= seq![
            ReleaseView::DestroyConfig(self@.config.id),
            ReleaseView::DestroyContext(self@.context.id),
            ReleaseView::DestroySurfaces(self@.context.surfaces),
        ]);
        releases
    }

    /// Begin to read the decoded picture back, at the coded size.
    pub fn read_back_nv12_as_i420(&self) -> (read_back: ReadBack)
        requires
            self@.wf(),
        ensures
            read_back@.wf(),
            read_back@.is_initial(),
            read_back@.surface == self@.surface(),
            read_back@.width == self@.coded_width,
            read_back@.height == self@.coded_height,
            read_back@.image.is_zeroed(),
    {
        ReadBack::new(self.surface(), self.coded_width, self.coded_height)
    }

    /// Prepare the slice of the first IDR picture in `annex_b`. The whole
    /// stream is submitted, and the slice parameters point at the IDR NAL unit
    /// in it.
    pub fn decode_idr(&self, annex_b: &[u8]) -> (job: Result<SliceJob, VaError>)
        requires
            self@.wf(),
            addressable(annex_b@.len()),
        ensures
            match idr_of_stream(annex_b@) {
                Err(text) => job matches Err(error) && error@ == parser_error(text),
                Ok(idr) => match (
                    job,
                    slice_data_bit_offset(idr.sps, idr.pps, NAL_TYPE_IDR, idr.access_unit),
                ) {
                    (Ok(job), Ok(offset)) => is_slice_job(
                        job,
                        idr.sps,
                        idr.pps,
                        idr.slice_header,
                        annex_b@,
                        (annex_b@.len() - idr.access_unit.len() + start_code(
                            idr.access_unit,
                        )) as nat,
                        offset,
                        self@,
                    ) && is_idr_tail(idr.access_unit, annex_b@),
                    (Err(error), Err(fault)) => error@ == fault.error(),
                    _ => false,
                },
            },
    {
        let sps: H264Sps = match parse_idr_sps(annex_b) {
            Ok(sps) => sps,
            Err(text) => {
                return Err(report_parser_error(text));
            },
        };
        match parse_idr_slice(annex_b) {
            Ok((pps, header, access_unit)) => self.slice_job(
                &sps,
                &pps,
                &header,
                NAL_TYPE_IDR,
                annex_b,
                annex_b.len() - access_unit.len(),
            ),
            Err(text) => Err(report_parser_error(text)),
        }
    }

    /// Prepare one slice for submission. `slice_access_unit` holds the slice
    /// NAL unit behind an Annex-B start code.
    pub fn decode_slice(
        &self,
        sps: &H264Sps,
        pps: &H264Pps,
        slice_header: &H264SliceHeader,
        nal_unit_type: u8,
        slice_access_unit: &[u8],
    ) -> (job: Result<SliceJob, VaError>)
        requires
            self@.wf(),
            slice_access_unit@.len() > start_code(slice_access_unit@)
                ==> sps.code_widths_readable(),
            addressable(slice_access_unit@.len()),
        ensures
            match (job, slice_data_bit_offset(*sps, *pps, nal_unit_type, slice_access_unit@)) {
                (Ok(job), Ok(offset)) => is_slice_job(
                    job,
                    *sps,
                    *pps,
                    *slice_header,
                    slice_access_unit@,
                    start_code(slice_access_unit@),
                    offset,
                    self@,
                ),
                (Err(error), Err(fault)) => error@ == fault.error(),
                _ => false,
            },
    {
        assert(slice_access_unit@.skip(0) =~= slice_access_unit@);
        self.slice_job(sps, pps, slice_header, nal_unit_type, slice_access_unit, 0)
    }

    /// Prepare the slice that begins, with its start code, at `start` of
    /// `data`; all of `data` is submitted.
    fn slice_job(
        &self,
        sps: &H264Sps,
        pps: &H264Pps,
        slice_header: &H264SliceHeader,
        nal_unit_type: u8,
        data: &[u8],
        start: usize,
    ) -> (job: Result<SliceJob, VaError>)
        requires
            self@.wf(),
            addressable(data@.len()),
            start <= data@.len(),
            data@.len() > start + start_code(data@.skip(start as int))
                ==> sps.code_widths_readable(),
        ensures
            match (
                job,
                slice_data_bit_offset(*sps, *pps, nal_unit_type, data@.skip(start as int)),
            ) {
                (Ok(job), Ok(offset)) => is_slice_job(
                    job,
                    *sps,
                    *pps,
                    *slice_header,
                    data@,
                    start as nat + start_code(data@.skip(start as int)),
                    offset,
                    self@,
                ),
                (Err(error), Err(fault)) => error@ == fault.error(),
                _ => false,
            },
    {
        let access_unit: &[u8] = slice_subrange(data, start, data.len());
        assert(access_unit@ =~= data@.skip(start as int));
        let bit_offset: u16 = compute_slice_data_bit_offset(sps, pps, nal_unit_type, access_unit)?;
        let size: u32 = ((data.len() as u64) % 0x1_0000_0000) as u32;
        let nal_header: usize = start + start_code_len(access_unit);
        let nal_offset: u32 = ((nal_header as u64) % 0x1_0000_0000) as u32;
        let mut slice_data: Vec<u8> = Vec::new();
        slice_data.extend_from_slice(data);
        assert(slice_data@ =~= data@);
        Ok(
            SliceJob {
                pic_param: build_pic_param(sps, pps, slice_header, self.surface()),
                iq_matrix: VAIQMatrixBufferH264::flat(),
                slice_param: build_slice_param(
                    pps,
                    slice_header,
                    nal_unit_type,
                    size,
                    nal_offset,
                    bit_offset,
                ),
                slice_data,
                submission: Submission::new(self.context.id(), self.surface()),
            },
        )
    }
}

/// The slice parameters describe the data that is submitted with them: its
/// size, the NAL header byte behind the start code at `start`, and the number
/// of bits from there to the entropy-coded part. (Data of 4 GiB or more has
/// sizes and offsets that do not fit.)
pub proof fn law_slice_parameters_locate_the_data(
    job: SliceJob,
    sps: H264Sps,
    pps: H264Pps,
    header: H264SliceHeader,
    nal_unit_type: u8,
    slice_data: Seq<u8>,
    start: nat,
    bit_offset: nat,
    decoder: DecoderView,
)
    requires
        start <= slice_data.len() < 0x1_0000_0000,
        is_slice_job(
            job,
            sps,
            pps,
            header,
            slice_data,
            start + start_code(slice_data.skip(start as int)),
            bit_offset,
            decoder,
        ),
        slice_data_bit_offset(sps, pps, nal_unit_type, slice_data.skip(start as int)) == Ok::<
            nat,
            HeaderFault,
        >(bit_offset),
    ensures
        job.slice_param.slice_data_size == job.slice_data@.len(),
        job.slice_param.slice_data_offset == start + start_code(
            job.slice_data@.skip(start as int),
        ),
        job.slice_param.slice_data_offset < job.slice_data@.len(),
        job.slice_param.slice_data_bit_offset == bit_offset,
{
    let access_unit = slice_data.skip(start as int);
    law_offset_covers_nal_header(sps, pps, nal_unit_type, access_unit);
    law_offset_needs_nal_header(sps, pps, nal_unit_type, access_unit);
}

/// In a stream that is submitted whole, the offset that the slice parameters
/// give is that of the header byte of an IDR NAL unit behind a start code.
pub proof fn law_idr_offset_points_at_idr_slice(stream: Seq<u8>, access_unit: Seq<u8>)
    requires
        is_idr_tail(access_unit, stream),
    ensures
        ({
            let start = stream.len() - access_unit.len();
            let nal_offset = start + start_code(access_unit);
            &&& start < nal_offset < stream.len()
            &&& stream[nal_offset] & 0x1f == NAL_TYPE_IDR
            &&& start_code(stream.skip(start)) == nal_offset - start
        }),
{
}

/// A slice that was prepared overrides nothing: it has no quantiser delta, the
/// first CABAC table, the default deblocking, and the default number of
/// references of the picture parameter set.
pub proof fn law_prepared_slices_override_nothing(
    decoder: &H264VaDecoder,
    sps: &H264Sps,
    pps: &H264Pps,
    header: &H264SliceHeader,
    nal_unit_type: u8,
    access_unit: &[u8],
    job: SliceJob,
)
    requires
        call_ensures(
            H264VaDecoder::decode_slice,
            (decoder, sps, pps, header, nal_unit_type, access_unit),
            Ok::<SliceJob, VaError>(job),
        ),
    ensures
        job.slice_param.slice_data_flag == 0,
        job.slice_param.slice_type == header.slice_type,
        (header.first_mb_in_slice - job.slice_param.first_mb_in_slice) % 0x1_0000 == 0,
        job.slice_param.num_ref_idx_l0_active_minus1 == pps.num_ref_idx_l0_default_active_minus1,
        job.slice_param.num_ref_idx_l1_active_minus1 == pps.num_ref_idx_l1_default_active_minus1,
        job.slice_param.direct_spatial_mv_pred_flag == 0,
        job.slice_param.cabac_init_idc == 0,
        job.slice_param.slice_qp_delta == 0,
        job.slice_param.disable_deblocking_filter_idc == 0,
        job.slice_param.slice_alpha_c0_offset_div2 == 0,
        job.slice_param.slice_beta_offset_div2 == 0,
{
}

/// A slice that was prepared has no references and no prediction weights.
pub proof fn law_prepared_slices_have_no_references(
    decoder: &H264VaDecoder,
    sps: &H264Sps,
    pps: &H264Pps,
    header: &H264SliceHeader,
    nal_unit_type: u8,
    access_unit: &[u8],
    job: SliceJob,
)
    requires
        call_ensures(
            H264VaDecoder::decode_slice,
            (decoder, sps, pps, header, nal_unit_type, access_unit),
            Ok::<SliceJob, VaError>(job),
        ),
    ensures
        forall|i: int|
            0 <= i < 32 ==> (#[trigger] job.slice_param.ref_pic_list0@[i]).picture_id == 0xFFFF_FFFF
                && job.slice_param.ref_pic_list0@[i].flags == 1,
        forall|i: int|
            0 <= i < 32 ==> (#[trigger] job.slice_param.ref_pic_list1@[i]).picture_id == 0xFFFF_FFFF
                && job.slice_param.ref_pic_list1@[i].flags == 1,
        job.slice_param.luma_log2_weight_denom == 0,
        job.slice_param.chroma_log2_weight_denom == 0,
        job.slice_param.luma_weight_l0_flag == 0 && job.slice_param.luma_weight_l1_flag == 0,
        job.slice_param.chroma_weight_l0_flag == 0 && job.slice_param.chroma_weight_l1_flag == 0,
        forall|i: int| 0 <= i < 32 ==> #[trigger] job.slice_param.luma_weight_l0@[i] == 0,
        forall|i: int| 0 <= i < 32 ==> #[trigger] job.slice_param.luma_offset_l0@[i] == 0,
        forall|i: int| 0 <= i < 32 ==> #[trigger] job.slice_param.luma_weight_l1@[i] == 0,
        forall|i: int| 0 <= i < 32 ==> #[trigger] job.slice_param.luma_offset_l1@[i] == 0,
        forall|i: int, plane: int|
            0 <= i < 32 && 0 <= plane < 2
                ==> #[trigger] job.slice_param.chroma_weight_l0@[i]@[plane] == 0,
        forall|i: int, plane: int|
            0 <= i < 32 && 0 <= plane < 2
                ==> #[trigger] job.slice_param.chroma_offset_l0@[i]@[plane] == 0,
        forall|i: int, plane: int|
            0 <= i < 32 && 0 <= plane < 2
                ==> #[trigger] job.slice_param.chroma_weight_l1@[i]@[plane] == 0,
        forall|i: int, plane: int|
            0 <= i < 32 && 0 <= plane < 2
                ==> #[trigger] job.slice_param.chroma_offset_l1@[i]@[plane] == 0,
{
}

/// The picture of a slice that was prepared: it is decoded into the decoder's
/// surface, has no references, and carries the fields of the parameter sets.
/// The fields of the two words are added with the weights of their lowest
/// bits. (What is wider than its field keeps its low bits.)
pub proof fn law_prepared_pictures_carry_their_parameter_sets(
    decoder: &H264VaDecoder,
    sps: &H264Sps,
    pps: &H264Pps,
    header: &H264SliceHeader,
    nal_unit_type: u8,
    access_unit: &[u8],
    job: SliceJob,
)
    requires
        call_ensures(
            H264VaDecoder::decode_slice,
            (decoder, sps, pps, header, nal_unit_type, access_unit),
            Ok::<SliceJob, VaError>(job),
        ),
    ensures
        job.pic_param.curr_pic.picture_id == decoder@.context.surfaces[0],
        job.pic_param.curr_pic.frame_idx == header.frame_num,
        job.pic_param.curr_pic.flags == 0,
        job.pic_param.curr_pic.top_field_order_cnt == 0,
        job.pic_param.curr_pic.bottom_field_order_cnt == 0,
        forall|i: int|
            0 <= i < 16 ==> (#[trigger] job.pic_param.reference_frames@[i]).picture_id
                == 0xFFFF_FFFF && job.pic_param.reference_frames@[i].flags == 1,
        (sps.pic_width_in_mbs_minus1 - job.pic_param.picture_width_in_mbs_minus1) % 0x1_0000 == 0,
        (sps.pic_height_in_map_units_minus1 - job.pic_param.picture_height_in_mbs_minus1) % 0x1_0000
            == 0,
        job.pic_param.bit_depth_luma_minus8 == sps.bit_depth_luma_minus8,
        job.pic_param.bit_depth_chroma_minus8 == sps.bit_depth_chroma_minus8,
        (sps.max_num_ref_frames - job.pic_param.num_ref_frames) % 0x100 == 0,
        job.pic_param.num_slice_groups_minus1 == 0,
        job.pic_param.slice_group_map_type == 0,
        job.pic_param.slice_group_change_rate_minus1 == 0,
        (pps.pic_init_qp_minus26 - job.pic_param.pic_init_qp_minus26) % 0x100 == 0,
        (pps.pic_init_qs_minus26 - job.pic_param.pic_init_qs_minus26) % 0x100 == 0,
        (pps.chroma_qp_index_offset - job.pic_param.chroma_qp_index_offset) % 0x100 == 0,
        (pps.second_chroma_qp_index_offset - job.pic_param.second_chroma_qp_index_offset) % 0x100
            == 0,
        (header.frame_num - job.pic_param.frame_num) % 0x1_0000 == 0,
        job.pic_param.seq_fields == sps.chroma_format_idc % 4 + (if sps.separate_colour_plane_flag {
            4int
        } else {
            0
        }) + (if sps.gaps_in_frame_num_value_allowed_flag {
            8int
        } else {
            0
        }) + (if sps.frame_mbs_only_flag {
            16int
        } else {
            0
        }) + (if sps.mb_adaptive_frame_field_flag {
            32int
        } else {
            0
        }) + (if sps.direct_8x8_inference_flag {
            64int
        } else {
            0
        }) + (if sps.level_idc >= 31 {
            128int
        } else {
            0
        }) + 256 * (sps.log2_max_frame_num_minus4 % 16) + 4096 * (sps.pic_order_cnt_type % 4)
            + 16384 * (sps.log2_max_pic_order_cnt_lsb_minus4 % 16) + (
        if sps.delta_pic_order_always_zero_flag {
            262144int
        } else {
            0
        }),
        job.pic_param.pic_fields == (if pps.entropy_coding_mode_flag {
            1int
        } else {
            0
        }) + (if pps.weighted_pred_flag {
            2int
        } else {
            0
        }) + 4 * (pps.weighted_bipred_idc % 4) + (if pps.transform_8x8_mode_flag {
            16int
        } else {
            0
        }) + (if header.field_pic_flag {
            32int
        } else {
            0
        }) + (if pps.constrained_intra_pred_flag {
            64int
        } else {
            0
        }) + (if pps.bottom_field_pic_order_in_frame_present_flag {
            128int
        } else {
            0
        }) + (if pps.deblocking_filter_control_present_flag {
            256int
        } else {
            0
        }) + (if pps.redundant_pic_cnt_present_flag {
            512int
        } else {
            0
        }) + 1024,
{
    law_sequence_word_is_a_sum(job.pic_param.seq_fields, *sps);
    law_picture_word_is_a_sum(job.pic_param.pic_fields, *pps, *header);
}

/// The quantisation matrices are flat.
pub proof fn law_prepared_matrices_are_flat(
    decoder: &H264VaDecoder,
    sps: &H264Sps,
    pps: &H264Pps,
    header: &H264SliceHeader,
    nal_unit_type: u8,
    access_unit: &[u8],
    job: SliceJob,
)
    requires
        call_ensures(
            H264VaDecoder::decode_slice,
            (decoder, sps, pps, header, nal_unit_type, access_unit),
            Ok::<SliceJob, VaError>(job),
        ),
    ensures
        forall|list: int, i: int|
            0 <= list < 6 && 0 <= i < 16
                ==> #[trigger] job.iq_matrix.scaling_list_4x4@[list]@[i] == 16,
        forall|list: int, i: int|
            0 <= list < 2 && 0 <= i < 64
                ==> #[trigger] job.iq_matrix.scaling_list_8x8@[list]@[i] == 16,
{
}

/// The data of a slice that was prepared is the access unit, whole, and its
/// parameters point behind the start code: four bytes for 0 0 0 1, three for
/// 0 0 1, and none where there is no start code. (Data of 4 GiB or more has
/// sizes that do not fit.)
pub proof fn law_prepared_data_is_the_access_unit(
    decoder: &H264VaDecoder,
    sps: &H264Sps,
    pps: &H264Pps,
    header: &H264SliceHeader,
    nal_unit_type: u8,
    access_unit: &[u8],
    job: SliceJob,
)
    requires
        call_ensures(
            H264VaDecoder::decode_slice,
            (decoder, sps, pps, header, nal_unit_type, access_unit),
            Ok::<SliceJob, VaError>(job),
        ),
    ensures
        job.slice_data@ == access_unit@,
        access_unit@.len() < 0x1_0000_0000 ==> job.slice_param.slice_data_size
            == access_unit@.len(),
        job.slice_param.slice_data_offset == (if access_unit@.len() >= 4 && access_unit@[0] == 0
            && access_unit@[1] == 0 && access_unit@[2] == 0 && access_unit@[3] == 1 {
            4int
        } else if access_unit@.len() >= 3 && access_unit@[0] == 0 && access_unit@[1] == 0
            && access_unit@[2] == 1 {
            3
        } else {
            0
        }),
        8 <= job.slice_param.slice_data_bit_offset,
{
    let bytes = access_unit@;
    if bytes.len() >= 4 {
        assert(bytes.subrange(0, 4) =~= seq![bytes[0], bytes[1], bytes[2], bytes[3]]);
    }
    if bytes.len() >= 3 {
        assert(bytes.subrange(0, 3) =~= seq![bytes[0], bytes[1], bytes[2]]);
    }
    law_offset_covers_nal_header(*sps, *pps, nal_unit_type, bytes);
}

/// A slice is refused exactly where the position of its data is unknown, with
/// the fault that says why.
pub proof fn law_unlocated_slices_are_refused(
    decoder: &H264VaDecoder,
    sps: &H264Sps,
    pps: &H264Pps,
    header: &H264SliceHeader,
    nal_unit_type: u8,
    access_unit: &[u8],
    job: Result<SliceJob, VaError>,
)
    requires
        call_ensures(
            H264VaDecoder::decode_slice,
            (decoder, sps, pps, header, nal_unit_type, access_unit),
            job,
        ),
    ensures
        match slice_data_bit_offset(*sps, *pps, nal_unit_type, access_unit@) {
            Ok(bits) => job matches Ok(job) && bits <= 0xFFFF
                && job.slice_param.slice_data_bit_offset == bits,
            Err(fault) => job matches Err(error) && error@ == (VaErrorView::Va {
                status: 0,
                message: fault.message(),
            }),
        },
{
    law_offset_covers_nal_header(*sps, *pps, nal_unit_type, access_unit@);
}

/// The first IDR picture of a stream is submitted with the whole stream. The
/// slice parameters point at the header byte of an IDR slice (type 5) behind a
/// start code, and override nothing. A stream that cannot be parsed is refused
/// with the parser's text.
pub proof fn law_idr_pictures_are_submitted_with_their_stream(
    decoder: &H264VaDecoder,
    stream: &[u8],
    job: Result<SliceJob, VaError>,
)
    requires
        stream@.len() < 0x1_0000_0000,
        call_ensures(H264VaDecoder::decode_idr, (decoder, stream), job),
    ensures
        idr_of_stream(stream@) matches Err(text) ==> (job matches Err(error) && error@ == (
        VaErrorView::Va { status: 0, message: "bitstream parser: "@ + text })),
        job matches Ok(job) ==> {
            let at = job.slice_param.slice_data_offset as int;
            &&& job.slice_data@ == stream@
            &&& job.slice_param.slice_data_size == stream@.len()
            &&& 3 <= at < stream@.len()
            &&& stream@[at] % 32 == 5
            &&& stream@[at - 1] == 1 && stream@[at - 2] == 0 && stream@[at - 3] == 0
            &&& job.slice_param.slice_data_bit_offset >= 8
            &&& job.slice_param.slice_data_flag == 0
            &&& job.slice_param.slice_qp_delta == 0
            &&& job.slice_param.cabac_init_idc == 0
            &&& job.slice_param.disable_deblocking_filter_idc == 0
            &&& job.slice_param.slice_alpha_c0_offset_div2 == 0
            &&& job.slice_param.slice_beta_offset_div2 == 0
            &&& job.pic_param.curr_pic.picture_id == decoder@.context.surfaces[0]
            &&& idr_of_stream(stream@) matches Ok(idr) && job.slice_param.slice_type
                == idr.slice_header.slice_type && job.pic_param.curr_pic.frame_idx
                == idr.slice_header.frame_num && job.pic_param.bit_depth_luma_minus8
                == idr.sps.bit_depth_luma_minus8
                && job.slice_param.num_ref_idx_l0_active_minus1
                == idr.pps.num_ref_idx_l0_default_active_minus1
        },
{
    if let Ok(idr) = idr_of_stream(stream@) {
        let unit = idr.access_unit;
        law_offset_covers_nal_header(idr.sps, idr.pps, NAL_TYPE_IDR, unit);
        if job is Ok {
            let start = stream@.len() - unit.len();
            let at = start + start_code(unit);
            assert(unit == stream@.skip(start));
            assert(unit[start_code(unit) as int] == stream@[at]);
            let first = stream@[at];
            assert(first & 0x1f == first % 32) by (bit_vector);
            assert(unit[start_code(unit) - 1] == stream@[at - 1]);
            assert(unit[start_code(unit) - 2] == stream@[at - 2]);
            assert(unit[start_code(unit) - 3] == stream@[at - 3]);
            if start_code(unit) == 4 {
                let code = unit.subrange(0, 4);
                assert(code[1] == unit[1] && code[2] == unit[2] && code[3] == unit[3]);
            } else {
                let code = unit.subrange(0, 3);
                assert(code[0] == unit[0] && code[1] == unit[1] && code[2] == unit[2]);
            }
        }
    }
}

/// A decoder is planned for the sequence parameter set of a stream's first IDR
/// picture, or for a given one, and asks for the profile H.264 High (7) with
/// the entrypoint for decoding (1).
pub proof fn law_decoders_are_planned(
    dpy: VADisplay,
    stream: &[u8],
    from_stream: Result<DecoderPlan, VaError>,
    sps: &H264Sps,
    from_set: DecoderPlan,
    profile: i32,
    entrypoint: i32,
)
    requires
        call_ensures(H264VaDecoder::new, (dpy, stream), from_stream),
        call_ensures(H264VaDecoder::from_sps, (dpy, sps), from_set),
        call_ensures(DecoderPlan::profile, (&from_set,), profile),
        call_ensures(DecoderPlan::entrypoint, (&from_set,), entrypoint),
    ensures
        idr_of_stream(stream@) matches Ok(idr) ==> (from_stream matches Ok(plan) && plan.dpy == dpy
            && plan.sps == idr.sps),
        idr_of_stream(stream@) matches Err(text) ==> (from_stream matches Err(error) && error@ == (
        VaErrorView::Va { status: 0, message: "bitstream parser: "@ + text })),
        from_set.dpy == dpy && from_set.sps == *sps,
        profile == 7,
        entrypoint == 1,
{
}

/// The context of a decoder is set up on its configuration, with one surface
/// of the coded size; the decoder then has the coded and the display size of
/// its parameter set.
pub proof fn law_decoders_are_set_up_at_coded_size(
    plan: &DecoderPlan,
    call: CallReply,
    id: VAConfigID,
    step: Result<(Config, ContextSetup), VaError>,
    config: Config,
    context: Result<Context, VaError>,
    decoder: Result<H264VaDecoder, FailedSetup>,
)
    requires
        plan.sps.dimensions_fit(),
        call_ensures(DecoderPlan::config_created, (plan, call, id), step),
        call_ensures(DecoderPlan::context_created, (plan, config, context), decoder),
    ensures
        step is Ok <==> call.status == 0,
        step matches Err(error) ==> error@ == (VaErrorView::Va {
            status: call.status,
            message: call.message(),
        }),
        step matches Ok((made, setup)) ==> made@.id == id && made@.dpy == plan.dpy && made@.profile
            == 7 && made@.entrypoint == 1 && setup@.request.dpy == plan.dpy && setup@.request.config
            == id && setup@.request.num_surfaces == 1 && setup@.request.width == 16
            * plan.sps.pic_width_in_mbs_minus1 + 16 && setup@.request.height == (16
            * plan.sps.pic_height_in_map_units_minus1 + 16) * (if plan.sps.frame_mbs_only_flag {
            1int
        } else {
            2
        }) && setup@.surfaces.len() == 0 && setup@.outcome is None,
        decoder is Ok <==> context is Ok,
        decoder matches Ok(decoder) ==> decoder@.dpy == plan.dpy && decoder@.config == config@ && (
        context matches Ok(context) && decoder@.context == context@) && decoder@.coded_width == 16
            * plan.sps.pic_width_in_mbs_minus1 + 16 && decoder@.coded_height == (16
            * plan.sps.pic_height_in_map_units_minus1 + 16) * (if plan.sps.frame_mbs_only_flag {
            1int
        } else {
            2
        }) && decoder@.display_width == plan.sps.display_columns() && decoder@.display_height
            == plan.sps.display_rows(),
        decoder matches Err(failed) ==> failed.config@ == config@ && (context matches Err(error)
            && failed.error@ == error@),
{
}

/// What a decoder tells of itself, and the read-back of its picture: the
/// decoder's one surface, at the coded size.
pub proof fn law_decoders_tell_their_parts(
    decoder: &H264VaDecoder,
    coded: (u32, u32),
    display: (u32, u32),
    surface: VASurfaceID,
    context: &Context,
    read_back: ReadBack,
)
    requires
        call_ensures(H264VaDecoder::coded_width, (decoder,), coded.0),
        call_ensures(H264VaDecoder::coded_height, (decoder,), coded.1),
        call_ensures(H264VaDecoder::display_width, (decoder,), display.0),
        call_ensures(H264VaDecoder::display_height, (decoder,), display.1),
        call_ensures(H264VaDecoder::surface, (decoder,), surface),
        call_ensures(H264VaDecoder::context, (decoder,), context),
        call_ensures(H264VaDecoder::read_back_nv12_as_i420, (decoder,), read_back),
    ensures
        coded.0 == decoder@.coded_width && coded.1 == decoder@.coded_height,
        display.0 == decoder@.display_width && display.1 == decoder@.display_height,
        surface == decoder@.context.surfaces[0],
        context@ == decoder@.context,
        read_back@.surface == surface,
        read_back@.width == coded.0 && read_back@.height == coded.1,
        read_back@.outcome is None,
        read_back@.action() is CreateImage,
{
}

/// A decoder gives back its configuration, its context and its surfaces, in
/// this order.
pub proof fn law_decoders_are_given_back(decoder: &H264VaDecoder, releases: Vec<Release>)
    requires
        call_ensures(H264VaDecoder::releases, (decoder,), releases),
    ensures
        releases@.len() == 3,
        releases@[0]@ == ReleaseView::DestroyConfig(decoder@.config.id),
        releases@[1]@ == ReleaseView::DestroyContext(decoder@.context.id),
        releases@[2]@ == ReleaseView::DestroySurfaces(decoder@.context.surfaces),
{
    assert(release_views(releases@).len() == releases@.len());
    assert(release_views(releases@)[0] == releases@[0]@);
    assert(release_views(releases@)[1] == releases@[1]@);
    assert(release_views(releases@)[2] == releases@[2]@);
}

/// A slice that was prepared is submitted to the decoder's context, into its
/// surface, with no call made yet.
pub proof fn law_prepared_slices_await_submission(
    decoder: &H264VaDecoder,
    sps: &H264Sps,
    pps: &H264Pps,
    header: &H264SliceHeader,
    nal_unit_type: u8,
    access_unit: &[u8],
    job: SliceJob,
)
    requires
        call_ensures(
            H264VaDecoder::decode_slice,
            (decoder, sps, pps, header, nal_unit_type, access_unit),
            Ok::<SliceJob, VaError>(job),
        ),
    ensures
        job.submission@.context == decoder@.context.id,
        job.submission@.surface == decoder@.context.surfaces[0],
        job.submission@.buffers.len() == 0,
        job.submission@.error is None,
        job.submission@.action() == (SubmitAction::CreateBuffer {
            context: decoder@.context.id,
            buf_type: 0,
        }),
{
}

} // verus!
