use oxideav_bitstream::bit_writer::BitWriter;
use oxideav_bitstream::h264 as bs;
use oxideav_bitstream::nal::rbsp_to_ebsp;
use oxideav_vaapi::codec::check_frame_covers;
use oxideav_vaapi::codec::decode_error;
use oxideav_vaapi::codec::open_error;
use oxideav_vaapi::codec::selected_device;
use oxideav_vaapi::codec::setup_error;
use oxideav_vaapi::codec::CodecError;
use oxideav_vaapi::codec::SliceTask;
use oxideav_vaapi::config;
use oxideav_vaapi::context::ContextAction;
use oxideav_vaapi::context::ContextRequest;
use oxideav_vaapi::decoder::DecoderPlan;
use oxideav_vaapi::readback::nv12_format;
use oxideav_vaapi::readback::ReadAction;
use oxideav_vaapi::readback::ReadBack;
use oxideav_vaapi::submission::SubmitAction;
use oxideav_vaapi::submission::SubmitReply;
use oxideav_vaapi::submission::Submission;
use oxideav_vaapi::sys::attrib;
use oxideav_vaapi::sys::entrypoint;
use oxideav_vaapi::sys::profile;
use oxideav_vaapi::sys::CallReply;
use oxideav_vaapi::sys::Release;
use oxideav_vaapi::sys::VAConfigAttrib;
use oxideav_vaapi::sys::VAImage;
use oxideav_vaapi::sys::VA_ATTRIB_NOT_SUPPORTED;
use oxideav_vaapi::sys::VA_FOURCC_NV12;
use oxideav_vaapi::sys::VA_INVALID_ID;
use oxideav_vaapi::sys::VA_RT_FORMAT_YUV420;
use oxideav_vaapi::Config;
use oxideav_vaapi::Context;
use oxideav_vaapi::DecodedFrame;
use oxideav_vaapi::H264VaCodecDecoder;
use oxideav_vaapi::H264VaDecoder;
use oxideav_vaapi::VaError;

const DPY: usize = 0x1000;

fn ok() -> CallReply {
    CallReply {
        status: 0,
        driver_text: None,
    }
}

fn failed(status: i32, text: &str) -> CallReply {
    CallReply {
        status,
        driver_text: Some(text.to_string()),
    }
}

fn stream_sps() -> bs::H264Sps {
    bs::H264Sps {
        profile_idc: 100,
        level_idc: 13,
        chroma_format_idc: 1,
        log2_max_pic_order_cnt_lsb_minus4: 2,
        max_num_ref_frames: 1,
        pic_width_in_mbs_minus1: 19,
        pic_height_in_map_units_minus1: 14,
        frame_mbs_only_flag: true,
        direct_8x8_inference_flag: true,
        ..Default::default()
    }
}

fn stream_pps() -> bs::H264Pps {
    bs::H264Pps {
        entropy_coding_mode_flag: true,
        pic_init_qp_minus26: -3,
        chroma_qp_index_offset: -2,
        deblocking_filter_control_present_flag: true,
        high_profile_tail_present: true,
        transform_8x8_mode_flag: true,
        second_chroma_qp_index_offset: -2,
        ..Default::default()
    }
}

/// The header of an IDR I slice, 34 bits long, and some slice data.
fn idr_nal() -> Vec<u8> {
    let mut w = BitWriter::new();
    w.write_ue(0).unwrap();
    w.write_ue(7).unwrap();
    w.write_ue(0).unwrap();
    w.write_bits(3, 4);
    w.write_ue(0).unwrap();
    w.write_bits(0, 6);
    w.write_bits(0, 2);
    w.write_se(-3).unwrap();
    w.write_ue(0).unwrap();
    w.write_se(0).unwrap();
    w.write_se(2).unwrap();
    assert_eq!(w.bit_pos(), 34);
    w.write_bits(0x2a5a5a, 22);
    w.write_rbsp_trailing_bits();
    let mut nal = vec![0x65];
    nal.extend_from_slice(&rbsp_to_ebsp(&w.finish()));
    nal
}

fn framed(nals: &[Vec<u8>]) -> Vec<u8> {
    let mut stream = Vec::new();
    for nal in nals {
        stream.extend_from_slice(&[0, 0, 0, 1]);
        stream.extend_from_slice(nal);
    }
    stream
}

fn sps_nal() -> Vec<u8> {
    bs::write_sps_nal(&stream_sps()).unwrap()
}

fn pps_nal() -> Vec<u8> {
    bs::write_pps_nal(&stream_pps()).unwrap()
}

fn stream() -> Vec<u8> {
    framed(&[sps_nal(), pps_nal(), idr_nal()])
}

fn decoder_for(plan: DecoderPlan) -> H264VaDecoder {
    assert!(plan.sps.has_fitting_dimensions());
    assert_eq!(plan.profile(), profile::VAProfileH264High);
    assert_eq!(plan.entrypoint(), entrypoint::VAEntrypointVLD);
    let (config, mut setup) = plan.config_created(ok(), 5).expect("config");
    let (width, height) = (plan.sps.coded_width(), plan.sps.coded_height());
    assert_eq!(
        setup.action(),
        ContextAction::CreateSurfaces {
            format: VA_RT_FORMAT_YUV420,
            width,
            height,
            num_surfaces: 1
        }
    );
    setup.surfaces_created(ok(), vec![77]);
    assert_eq!(
        setup.action(),
        ContextAction::CreateContext {
            config: 5,
            width,
            height
        }
    );
    setup.context_created(ok(), 9);
    assert_eq!(setup.action(), ContextAction::Finish);
    match plan.context_created(config, setup.finish()) {
        Ok(decoder) => decoder,
        Err(failure) => panic!("{}", failure.error.to_text()),
    }
}

fn decoder() -> H264VaDecoder {
    decoder_for(H264VaDecoder::new(DPY, &stream()).expect("plan"))
}

#[test]
fn h264_high_decode_config_creates() {
    let cfg = Config::new(
        DPY,
        profile::VAProfileH264High,
        entrypoint::VAEntrypointVLD,
        ok(),
        5,
    )
    .expect("Config::new for (H264High, VLD) on a working VA-API driver");
    assert_ne!(cfg.id(), 0, "vaCreateConfig returned id 0");
    assert_eq!(cfg.profile(), profile::VAProfileH264High);
    assert_eq!(cfg.entrypoint(), entrypoint::VAEntrypointVLD);
    assert_eq!(cfg.releases(), vec![Release::DestroyConfig(5)]);
    let query = cfg.attribute_query();
    assert_eq!((query.dpy, query.profile, query.entrypoint), (DPY, 7, 1));
}

#[test]
fn refused_configs_carry_the_status() {
    let refused = Config::new(DPY, 7, 6, failed(13, "the requested VAEntryPoint is not supported"), 0);
    match refused {
        Err(error) => assert_eq!(
            error.to_text(),
            "VA-API call failed (status 13): the requested VAEntryPoint is not supported"
        ),
        Ok(_) => panic!("the driver refused"),
    }
}

fn request(num_surfaces: u32) -> ContextRequest {
    ContextRequest {
        dpy: DPY,
        config: 5,
        width: 1920,
        height: 1088,
        num_surfaces,
    }
}

#[test]
fn h264_high_decode_context_creates() {
    let mut setup = match Context::new(request(1)) {
        Ok(setup) => setup,
        Err(error) => panic!("{}", error.to_text()),
    };
    setup.surfaces_created(ok(), vec![77]);
    setup.context_created(ok(), 9);
    let ctx = setup.finish().expect("context");
    assert_ne!(ctx.id(), 0, "vaCreateContext returned id 0");
    assert_eq!(ctx.dimensions(), (1920, 1088));
    assert_eq!(ctx.surfaces().len(), 1);
    assert_ne!(ctx.surfaces()[0], VA_INVALID_ID, "surface id is invalid");
    assert_eq!(
        ctx.releases(),
        vec![
            Release::DestroyContext(9),
            Release::DestroySurfaces(vec![77])
        ]
    );
}

#[test]
fn contexts_need_a_surface() {
    match Context::new(request(0)) {
        Err(error) => assert_eq!(
            error.to_text(),
            "VA-API call failed (status 0): Context::new: num_surfaces must be >= 1"
        ),
        Ok(_) => panic!("no surface was requested"),
    }
}

#[test]
fn failed_contexts_destroy_their_surfaces() {
    let mut setup = Context::new(request(2)).unwrap_or_else(|e| panic!("{}", e.to_text()));
    assert_eq!(setup.request().num_surfaces, 2);
    setup.surfaces_created(ok(), vec![3, 4]);
    setup.context_created(failed(5, "invalid VAContextID"), 0);
    assert_eq!(setup.action(), ContextAction::DestroySurfaces);
    assert_eq!(setup.surfaces(), &[3, 4]);
    setup.surfaces_destroyed();
    assert_eq!(setup.action(), ContextAction::Finish);
    match setup.finish() {
        Err(error) => assert_eq!(
            error.to_text(),
            "VA-API call failed (status 5): invalid VAContextID"
        ),
        Ok(_) => panic!("the context failed"),
    }

    let mut setup = Context::new(request(1)).unwrap_or_else(|e| panic!("{}", e.to_text()));
    setup.surfaces_created(failed(2, "resource allocation failed"), vec![0]);
    assert_eq!(setup.action(), ContextAction::Finish);
    assert!(setup.finish().is_err());
}

#[test]
fn h264_high_supports_yuv420_render_target() {
    let value = config::get_attribute(ok(), VA_RT_FORMAT_YUV420)
        .expect("vaGetConfigAttributes(RTFormat) on H264High/VLD")
        .expect("driver should advertise an RTFormat for H264High/VLD");
    assert!(value & VA_RT_FORMAT_YUV420 != 0);
}

#[test]
fn attributes_can_be_unsupported() {
    assert!(matches!(config::get_attribute(ok(), VA_ATTRIB_NOT_SUPPORTED), Ok(None)));
    assert!(matches!(config::get_attribute(ok(), 0), Ok(Some(0))));
    assert!(config::get_attribute(failed(3, "invalid"), 1).is_err());
    let mut list = config::attribute_shortlist();
    let types: Vec<i32> = list.iter().map(|a| a.ty).collect();
    assert_eq!(
        types,
        vec![
            attrib::VAConfigAttribRTFormat,
            attrib::VAConfigAttribDecSliceMode,
            attrib::VAConfigAttribMaxPictureWidth,
            attrib::VAConfigAttribMaxPictureHeight,
            attrib::VAConfigAttribRateControl
        ]
    );
    assert!(list.iter().all(|a| a.value == 0));
    list[0].value = 1;
    list[1].value = VA_ATTRIB_NOT_SUPPORTED;
    list[2].value = 4096;
    list[4].value = VA_ATTRIB_NOT_SUPPORTED;
    let supported = config::supported_attributes(ok(), &list).expect("supported");
    assert_eq!(
        supported,
        vec![
            VAConfigAttrib { ty: 0, value: 1 },
            VAConfigAttrib { ty: 18, value: 4096 },
            VAConfigAttrib { ty: 19, value: 0 }
        ]
    );
    assert!(config::supported_attributes(failed(1, "x"), &list).is_err());
    let cfg = Config::new(DPY, 7, 1, ok(), 5).expect("config");
    assert_eq!(cfg.supported_attributes(ok(), &list).expect("supported"), supported);
    assert!(matches!(cfg.get_attribute(ok(), 4096), Ok(Some(4096))));
}

#[test]
fn h264_high_decoder_constructs() {
    let dec = decoder();
    assert_eq!(dec.coded_width(), 320);
    assert_eq!(dec.coded_height(), 240);
    assert_eq!(dec.display_width(), 320);
    assert_eq!(dec.display_height(), 240);
    assert_ne!(dec.surface(), 0, "render-target surface id should be non-zero");
    assert_eq!(dec.context().id(), 9);
    assert_eq!(
        dec.releases(),
        vec![
            Release::DestroyConfig(5),
            Release::DestroyContext(9),
            Release::DestroySurfaces(vec![77])
        ]
    );
}

#[test]
fn failed_decoders_give_their_config_back() {
    let plan = H264VaDecoder::new(DPY, &stream()).expect("plan");
    assert!(plan.config_created(failed(12, "unsupported profile"), 0).is_err());
    let (config, mut setup) = plan.config_created(ok(), 5).expect("config");
    setup.surfaces_created(failed(2, "resource allocation failed"), vec![0]);
    match plan.context_created(config, setup.finish()) {
        Err(failure) => {
            assert_eq!(failure.config.id(), 5);
            assert_eq!(
                failure.error.to_text(),
                "VA-API call failed (status 2): resource allocation failed"
            );
        }
        Ok(_) => panic!("the surfaces failed"),
    }
}

#[test]
fn streams_without_parameter_sets_are_refused() {
    match H264VaDecoder::new(DPY, &framed(&[idr_nal()])) {
        Err(error) => assert_eq!(
            error.to_text(),
            "VA-API call failed (status 0): bitstream parser: invalid bitstream data: stream has no SPS NAL"
        ),
        Ok(_) => panic!("there is no parameter set"),
    }
    match decoder().decode_idr(&framed(&[sps_nal(), pps_nal()])) {
        Err(error) => assert_eq!(
            error.to_text(),
            "VA-API call failed (status 0): bitstream parser: invalid bitstream data: stream has no IDR NAL"
        ),
        Ok(_) => panic!("there is no slice"),
    }
}

#[test]
fn an_idr_picture_fills_the_parameter_buffers() {
    let dec = decoder();
    let job = dec.decode_idr(&stream()).unwrap_or_else(|e| panic!("{}", e.to_text()));
    assert_eq!(job.pic_param.curr_pic.picture_id, 77);
    assert_eq!(job.pic_param.picture_width_in_mbs_minus1, 19);
    assert_eq!(job.pic_param.picture_height_in_mbs_minus1, 14);
    assert_eq!(job.pic_param.frame_num, 3);
    assert_eq!(job.pic_param.pic_init_qp_minus26, -3);
    assert_eq!(job.pic_param.chroma_qp_index_offset, -2);
    // chroma 1, frames only, direct, 2 << 14
    assert_eq!(job.pic_param.seq_fields, 1 | 1 << 4 | 1 << 6 | 2 << 14);
    // CABAC, 8x8 transform, deblocking control, reference
    assert_eq!(job.pic_param.pic_fields, 1 | 1 << 4 | 1 << 8 | 1 << 10);
    assert_eq!(job.slice_param.slice_data_size as usize, stream().len());
    let header = job.slice_param.slice_data_offset as usize;
    assert_eq!(header, stream().len() - idr_nal().len());
    assert_eq!(&job.slice_data[header..], &idr_nal()[..]);
    assert_eq!(job.slice_param.slice_data_bit_offset, 8 + 40);
    assert_eq!(job.slice_param.slice_type, 7);
    assert_eq!(job.iq_matrix.scaling_list_4x4[5][15], 16);
    assert_eq!(job.slice_data, stream());
    assert_eq!(
        job.submission.action(),
        SubmitAction::CreateBuffer {
            context: 9,
            buf_type: 0
        }
    );
}

#[test]
fn an_idr_picture_is_submitted_with_the_whole_stream() {
    let mut data = framed(&[vec![0x09, 0xf0], sps_nal(), pps_nal()]);
    let mut tail = vec![0, 0, 1];
    tail.extend_from_slice(&idr_nal());
    tail.extend_from_slice(&framed(&[vec![0x41, 0x9a, 0x00]]));
    data.extend_from_slice(&tail);
    let job = decoder()
        .decode_idr(&data)
        .unwrap_or_else(|e| panic!("{}", e.to_text()));
    assert_eq!(job.slice_data, data);
    assert_eq!(job.slice_param.slice_data_size as usize, data.len());
    let header = job.slice_param.slice_data_offset as usize;
    assert_eq!(header, data.len() - tail.len() + 3);
    assert_eq!(data[header] & 0x1f, 5);
    assert_eq!(job.slice_param.slice_data_bit_offset, 8 + 40);
}

/// Drive a submission with the statuses of its calls; the buffers are 100 on.
fn drive(statuses: &[i32]) -> (Vec<SubmitAction>, Result<(), VaError>) {
    let mut submission = Submission::new(9, 77);
    let mut actions = Vec::new();
    let mut n = 0;
    while submission.action() != SubmitAction::Finish {
        actions.push(submission.action());
        let status = statuses.get(n).copied().unwrap_or(0);
        submission.advance(SubmitReply {
            call: CallReply {
                status,
                driver_text: Some(format!("text {n}")),
            },
            buffer: 100 + n as u32,
        });
        n += 1;
    }
    assert!(n <= 12);
    (actions, submission.finish())
}

const CREATES: [SubmitAction; 4] = [
    SubmitAction::CreateBuffer {
        context: 9,
        buf_type: 0,
    },
    SubmitAction::CreateBuffer {
        context: 9,
        buf_type: 1,
    },
    SubmitAction::CreateBuffer {
        context: 9,
        buf_type: 4,
    },
    SubmitAction::CreateBuffer {
        context: 9,
        buf_type: 5,
    },
];

const BEGIN: SubmitAction = SubmitAction::BeginPicture {
    context: 9,
    surface: 77,
};

const RENDER: SubmitAction = SubmitAction::RenderPicture { context: 9 };

const END: SubmitAction = SubmitAction::EndPicture { context: 9 };

const SYNC: SubmitAction = SubmitAction::SyncSurface { surface: 77 };

const DESTROYS: [SubmitAction; 4] = [
    SubmitAction::DestroyBuffer { id: 103 },
    SubmitAction::DestroyBuffer { id: 102 },
    SubmitAction::DestroyBuffer { id: 101 },
    SubmitAction::DestroyBuffer { id: 100 },
];

fn expected(picture: &[SubmitAction]) -> Vec<SubmitAction> {
    let mut actions = CREATES.to_vec();
    actions.extend_from_slice(picture);
    actions.extend_from_slice(&DESTROYS);
    actions
}

#[test]
fn a_submission_destroys_its_buffers_in_reverse() {
    let (actions, outcome) = drive(&[]);
    assert_eq!(
        actions,
        expected(&[BEGIN, RENDER, END, SYNC])
    );
    assert!(outcome.is_ok());
}

#[test]
fn a_failed_begin_makes_no_picture() {
    let (actions, outcome) = drive(&[0, 0, 0, 0, 6]);
    assert_eq!(actions, expected(&[BEGIN]));
    assert_eq!(
        outcome.unwrap_err().to_text(),
        "VA-API call failed (status 6): text 4"
    );
}

#[test]
fn a_failed_render_still_ends_the_picture() {
    let (actions, outcome) = drive(&[0, 0, 0, 0, 0, 7, 8]);
    assert_eq!(
        actions,
        expected(&[BEGIN, RENDER, END])
    );
    assert_eq!(
        outcome.unwrap_err().to_text(),
        "VA-API call failed (status 7): text 5"
    );
}

#[test]
fn a_failed_end_or_sync_fails_the_submission() {
    let (actions, outcome) = drive(&[0, 0, 0, 0, 0, 0, 9]);
    assert_eq!(actions.len(), 11);
    assert_eq!(
        outcome.unwrap_err().to_text(),
        "VA-API call failed (status 9): text 6"
    );
    let (actions, outcome) = drive(&[0, 0, 0, 0, 0, 0, 0, 10]);
    assert_eq!(actions.len(), 12);
    assert_eq!(
        outcome.unwrap_err().to_text(),
        "VA-API call failed (status 10): text 7"
    );
}

#[test]
fn a_failed_buffer_ends_the_submission() {
    let (actions, outcome) = drive(&[2]);
    assert_eq!(actions, CREATES[..1].to_vec());
    assert_eq!(
        outcome.unwrap_err().to_text(),
        "VA-API call failed (status 2): vaCreateBuffer(type=0): text 0"
    );
    let (actions, outcome) = drive(&[0, 0, 2]);
    let mut expected = CREATES[..3].to_vec();
    expected.extend_from_slice(&DESTROYS[2..]);
    assert_eq!(actions, expected);
    assert_eq!(
        outcome.unwrap_err().to_text(),
        "VA-API call failed (status 2): vaCreateBuffer(type=4): text 2"
    );
}

#[test]
fn statuses_without_a_text_are_written_in_hexadecimal() {
    let reply = CallReply {
        status: -1,
        driver_text: None,
    };
    assert_eq!(
        reply.check().unwrap_err().to_text(),
        "VA-API call failed (status -1): VAStatus 0xffffffff"
    );
    let reply = CallReply {
        status: 0x1a,
        driver_text: None,
    };
    assert_eq!(
        reply.check_as("vaMapBuffer(image): ").unwrap_err().to_text(),
        "VA-API call failed (status 26): vaMapBuffer(image): VAStatus 0x1a"
    );
    assert!(ok().check().is_ok());
}

fn image() -> VAImage {
    VAImage {
        image_id: 31,
        buf: 32,
        width: 4,
        height: 2,
        pitches: [4, 4, 0],
        offsets: [0, 8, 0],
        ..VAImage::zeroed()
    }
}

#[test]
fn a_read_back_releases_what_it_took() {
    let format = nv12_format();
    assert_eq!(
        (format.fourcc, format.byte_order, format.bits_per_pixel),
        (VA_FOURCC_NV12, 1, 12)
    );
    let mut read = decoder().read_back_nv12_as_i420();
    assert_eq!(
        read.action(),
        ReadAction::CreateImage {
            width: 320,
            height: 240
        }
    );
    read.image_created(ok(), image());
    assert_eq!(
        read.action(),
        ReadAction::GetImage {
            surface: 77,
            width: 320,
            height: 240,
            image: 31
        }
    );
    read.replied(ok());
    assert_eq!(read.action(), ReadAction::MapBuffer { buffer: 32 });
    read.replied(ok());
    assert_eq!(read.action(), ReadAction::Copy);
    assert_eq!(read.image().width, 4);
    read.copy_out(&[1, 2, 3, 4, 5, 6, 7, 8, 10, 20, 11, 21]);
    assert_eq!(read.action(), ReadAction::UnmapBuffer { buffer: 32 });
    read.replied(failed(1, "ignored"));
    assert_eq!(read.action(), ReadAction::DestroyImage { image: 31 });
    read.replied(failed(1, "ignored"));
    assert_eq!(read.action(), ReadAction::Finish);
    let frame = read.finish().expect("frame");
    assert_eq!((frame.width, frame.height), (4, 2));
    assert_eq!(frame.y, vec![1, 2, 3, 4, 5, 6, 7, 8]);
    assert_eq!(frame.u, vec![10, 11]);
    assert_eq!(frame.v, vec![20, 21]);
}

#[test]
fn failed_read_backs_name_the_call() {
    let mut read = ReadBack::new(77, 4, 2);
    read.image_created(failed(20, "unimplemented"), VAImage::zeroed());
    assert_eq!(read.action(), ReadAction::Finish);
    assert_eq!(
        read.finish().unwrap_err().to_text(),
        "VA-API call failed (status 20): vaCreateImage(NV12): unimplemented"
    );

    let mut read = ReadBack::new(77, 4, 2);
    read.image_created(ok(), image());
    read.replied(failed(1, "no"));
    assert_eq!(read.action(), ReadAction::DestroyImage { image: 31 });
    read.replied(ok());
    assert_eq!(
        read.finish().unwrap_err().to_text(),
        "VA-API call failed (status 1): vaGetImage(NV12): no"
    );

    let mut read = ReadBack::new(77, 4, 2);
    read.image_created(ok(), image());
    read.replied(ok());
    read.replied(failed(1, "no"));
    assert_eq!(read.action(), ReadAction::DestroyImage { image: 31 });
    read.replied(ok());
    assert_eq!(
        read.finish().unwrap_err().to_text(),
        "VA-API call failed (status 1): vaMapBuffer(image): no"
    );
}

/// Decode a slice into a grey frame, as a driver would.
fn complete(codec: &mut H264VaCodecDecoder, task: &SliceTask, pts: Option<i64>) {
    if let Some(plan) = codec.decoder_plan(DPY, task) {
        codec.install_decoder(decoder_for(plan));
    }
    let dec = codec.decoder().expect("decoder");
    let job = dec
        .decode_slice(
            &task.sps,
            &task.pps,
            &task.header,
            task.nal_unit_type,
            &task.access_unit,
        )
        .unwrap_or_else(|e| panic!("{}", e.to_text()));
    assert_eq!(job.slice_param.slice_data_offset, 4);
    let (w, h) = (dec.coded_width(), dec.coded_height());
    let frame = DecodedFrame {
        width: w,
        height: h,
        y: vec![0x80; (w * h) as usize],
        u: vec![0x40; (w / 2 * (h / 2)) as usize],
        v: vec![0x20; (w / 2 * (h / 2)) as usize],
    };
    assert!(check_frame_covers(&frame, dec.display_width(), dec.display_height()));
    codec.finish_slice(&frame, pts);
}

fn send(codec: &mut H264VaCodecDecoder, data: &[u8], pts: Option<i64>) -> Result<usize, CodecError> {
    let mut packet = codec.send_packet(data);
    let mut slices = 0;
    while let Some(task) = codec.next_slice(&mut packet)? {
        complete(codec, &task, pts);
        slices += 1;
    }
    Ok(slices)
}

fn text(error: CodecError) -> String {
    match error {
        CodecError::Other(text) => text,
        other => panic!("unexpected {other:?}"),
    }
}

#[test]
fn registry_decoder_roundtrips_idr_packet() {
    let mut dec = H264VaCodecDecoder::new("h264".to_string());
    assert_eq!(dec.codec_id(), "h264");
    assert_eq!(send(&mut dec, &stream(), Some(0)).expect("send_packet"), 1);
    let v = dec.receive_frame().expect("receive_frame");
    assert_eq!(v.planes.len(), 3, "expected I420 (3 planes)");
    assert_eq!(v.planes[0].stride, 320, "Y stride should match display width");
    assert_eq!(v.planes[0].data.len(), 320 * 240, "Y plane size");
    assert_eq!(v.planes[1].data.len(), 160 * 120, "U plane size");
    assert_eq!(v.planes[2].data.len(), 160 * 120, "V plane size");
    assert!(matches!(dec.receive_frame(), Err(CodecError::NeedMore)));
    assert!(dec.flush().is_ok());
}

#[test]
fn registry_decoder_handles_split_sps_pps_idr_packets() {
    let mut dec = H264VaCodecDecoder::new("h264".to_string());
    send(&mut dec, &framed(&[sps_nal()]), Some(0)).expect("send_packet sps");
    assert!(
        matches!(dec.receive_frame(), Err(CodecError::NeedMore)),
        "no frame should be available after SPS-only packet"
    );
    send(&mut dec, &framed(&[pps_nal()]), Some(0)).expect("send_packet pps");
    assert!(
        matches!(dec.receive_frame(), Err(CodecError::NeedMore)),
        "no frame should be available after PPS-only packet"
    );
    send(&mut dec, &framed(&[idr_nal()]), Some(33)).expect("send_packet idr");
    let v = dec.receive_frame().expect("receive_frame after IDR");
    assert_eq!(v.planes.len(), 3, "expected I420 (3 planes)");
    assert_eq!(v.planes[0].stride, 320, "Y stride should match display width");
    assert_eq!(v.planes[0].data.len(), 320 * 240, "Y plane size");
    assert_eq!(v.pts, Some(33), "frame pts should be carried from the slice packet");
}

#[test]
fn registry_decoder_errors_on_slice_without_sps() {
    let mut dec = H264VaCodecDecoder::new("h264".to_string());
    let error = send(&mut dec, &framed(&[idr_nal()]), Some(0)).unwrap_err();
    assert_eq!(
        text(error),
        "VA-API: no SPS available before slice (stream malformed?)"
    );
    send(&mut dec, &framed(&[sps_nal()]), None).expect("send_packet sps");
    let error = send(&mut dec, &framed(&[idr_nal()]), Some(0)).unwrap_err();
    assert_eq!(
        text(error),
        "VA-API: no PPS available before slice (stream malformed?)"
    );
}

#[test]
fn other_nal_units_and_stray_bytes_are_ignored() {
    let mut data = vec![0xde, 0xad];
    data.extend_from_slice(&framed(&[
        vec![0x09, 0xf0],
        sps_nal(),
        vec![],
        vec![0x06, 5, 1, 0xff],
        pps_nal(),
        idr_nal(),
        idr_nal(),
    ]));
    let mut dec = H264VaCodecDecoder::new("h264".to_string());
    assert_eq!(send(&mut dec, &[], None).expect("empty"), 0);
    assert_eq!(send(&mut dec, &data, None).expect("slices"), 2);
}

#[test]
fn malformed_parameter_sets_are_reported() {
    let mut dec = H264VaCodecDecoder::new("h264".to_string());
    let error = send(&mut dec, &framed(&[vec![0x67, 100]]), None).unwrap_err();
    assert_eq!(
        text(error),
        "VA-API: parse SPS NAL: unexpected end of stream: SPS shorter than 3 bytes"
    );
    let error = send(&mut dec, &framed(&[vec![0x68]]), None).unwrap_err();
    assert_eq!(
        text(error),
        "VA-API: parse PPS NAL: unexpected end of stream: empty PPS"
    );
    send(&mut dec, &framed(&[sps_nal(), pps_nal()]), None).expect("parameter sets");
    let error = send(&mut dec, &framed(&[vec![0x65, 0, 0, 3, 0, 0, 3, 0, 1]]), None).unwrap_err();
    assert_eq!(
        text(error),
        "VA-API: parse slice header: invalid bitstream data: ue(v): 32 or more leading zero bits"
    );
}

#[test]
fn cropped_streams_are_cropped() {
    let sps = bs::H264Sps {
        frame_cropping: Some(bs::H264FrameCropping {
            left: 0,
            right: 5,
            top: 0,
            bottom: 3,
        }),
        ..stream_sps()
    };
    let mut dec = H264VaCodecDecoder::new("h264".to_string());
    let nals = [bs::write_sps_nal(&sps).unwrap(), pps_nal(), idr_nal()];
    send(&mut dec, &framed(&nals), None).expect("send_packet");
    let v = dec.receive_frame().expect("frame");
    assert_eq!(v.planes[0].stride, 310);
    assert_eq!(v.planes[0].data.len(), 310 * 234);
    assert_eq!(v.planes[1].stride, 155);
    assert_eq!(v.planes[1].data, vec![0x40; 155 * 117]);
    assert_eq!(v.planes[2].data, vec![0x20; 155 * 117]);
    assert_eq!(v.pts, None);
}

#[test]
fn slices_follow_the_latest_parameter_sets() {
    let mut dec = H264VaCodecDecoder::new("h264".to_string());
    let old = bs::H264Sps {
        pic_width_in_mbs_minus1: 9,
        ..stream_sps()
    };
    let nals = [
        bs::write_sps_nal(&old).unwrap(),
        pps_nal(),
        sps_nal(),
        idr_nal(),
    ];
    let data = framed(&nals);
    let mut packet = dec.send_packet(&data);
    let task = dec.next_slice(&mut packet).expect("walk").expect("slice");
    assert_eq!(task.sps.pic_width_in_mbs_minus1, 19);
    assert_eq!(task.header.frame_num, 3);
    assert_eq!(task.header.slice_type, 7);
    assert_eq!(task.header.first_mb_in_slice, 0);
    assert!(!task.header.field_pic_flag);
    assert_eq!(task.nal_unit_type, 5);
    assert!(task.pps.transform_8x8_mode_flag);
    assert_eq!(task.access_unit, framed(&[idr_nal()]));
}

#[test]
fn small_frames_do_not_cover_the_display() {
    let frame = DecodedFrame {
        width: 16,
        height: 16,
        y: vec![0; 256],
        u: vec![0; 64],
        v: vec![0; 63],
    };
    assert!(!check_frame_covers(&frame, 16, 16));
    assert!(check_frame_covers(&frame, 14, 16));
    assert!(!check_frame_covers(&frame, 14, 18));
}

#[test]
fn codec_errors_wrap_driver_errors() {
    let error = VaError::Init {
        status: 0,
        message: "m".to_string(),
    };
    match open_error(&error) {
        CodecError::Unsupported(text) => assert_eq!(
            text,
            "VA-API: open DRM render node failed: vaInitialize failed (status 0): m"
        ),
        other => panic!("unexpected {other:?}"),
    }
    assert_eq!(
        text(setup_error(&VaError::GetDisplayNull)),
        "VA-API: H264VaDecoder::from_sps: vaGetDisplayDRM returned null"
    );
    assert_eq!(
        text(decode_error(&VaError::Sys("s".to_string()))),
        "VA-API: decode_slice: libva runtime: s"
    );
    assert_eq!(selected_device(None), 0);
    assert_eq!(selected_device(Some(3)), 3);
}
