use oxideav_bitstream::bit_writer::BitWriter;
use oxideav_bitstream::nal::rbsp_to_ebsp;
use oxideav_vaapi::h264::H264Pps;
use oxideav_vaapi::h264::H264Sps;
use oxideav_vaapi::slice_header::compute_payload_bit_offset;
use oxideav_vaapi::slice_header::compute_slice_data_bit_offset;
use oxideav_vaapi::slice_header::start_code_len;
use oxideav_vaapi::VaError;

fn sps() -> H264Sps {
    H264Sps {
        level_idc: 13,
        chroma_format_idc: 1,
        separate_colour_plane_flag: false,
        bit_depth_luma_minus8: 0,
        bit_depth_chroma_minus8: 0,
        log2_max_frame_num_minus4: 0,
        pic_order_cnt_type: 0,
        log2_max_pic_order_cnt_lsb_minus4: 2,
        delta_pic_order_always_zero_flag: false,
        max_num_ref_frames: 1,
        gaps_in_frame_num_value_allowed_flag: false,
        pic_width_in_mbs_minus1: 19,
        pic_height_in_map_units_minus1: 14,
        frame_mbs_only_flag: true,
        mb_adaptive_frame_field_flag: false,
        direct_8x8_inference_flag: true,
        frame_cropping: None,
    }
}

fn pps() -> H264Pps {
    H264Pps {
        entropy_coding_mode_flag: false,
        bottom_field_pic_order_in_frame_present_flag: false,
        num_ref_idx_l0_default_active_minus1: 0,
        num_ref_idx_l1_default_active_minus1: 0,
        weighted_pred_flag: false,
        weighted_bipred_idc: 0,
        pic_init_qp_minus26: 0,
        pic_init_qs_minus26: 0,
        chroma_qp_index_offset: 0,
        deblocking_filter_control_present_flag: true,
        constrained_intra_pred_flag: false,
        redundant_pic_cnt_present_flag: false,
        transform_8x8_mode_flag: false,
        second_chroma_qp_index_offset: 0,
    }
}

fn message(error: VaError) -> String {
    match error {
        VaError::Va { status, message } => {
            assert_eq!(status, 0);
            message
        }
        other => panic!("unexpected {other:?}"),
    }
}

/// An IDR I slice header up to `slice_qp_delta` and the deblocking fields.
fn idr_header(w: &mut BitWriter) {
    w.write_ue(0).unwrap();
    w.write_ue(7).unwrap();
    w.write_ue(0).unwrap();
    w.write_bits(0, 4);
    w.write_ue(0).unwrap();
    w.write_bits(0, 6);
    w.write_bits(0, 2);
    w.write_se(-3).unwrap();
    w.write_ue(0).unwrap();
    w.write_se(0).unwrap();
    w.write_se(2).unwrap();
}

/// The first fields of a non-IDR slice of some type.
fn inter_opening(w: &mut BitWriter, slice_type: u32) {
    w.write_ue(0).unwrap();
    w.write_ue(slice_type).unwrap();
    w.write_ue(0).unwrap();
    w.write_bits(5, 4);
    w.write_bits(9, 6);
}

fn closing(w: &mut BitWriter) {
    w.write_se(1).unwrap();
    w.write_ue(1).unwrap();
}

fn payload(mut w: BitWriter) -> (usize, Vec<u8>) {
    let bits = w.bit_pos();
    w.write_bits(0x5a5a, 16);
    w.write_rbsp_trailing_bits();
    (bits, w.finish())
}

#[test]
fn start_codes() {
    assert_eq!(start_code_len(&[0, 0, 0, 1, 0x65]), 4);
    assert_eq!(start_code_len(&[0, 0, 1, 0x65]), 3);
    assert_eq!(start_code_len(&[0, 0, 1]), 3);
    assert_eq!(start_code_len(&[0x65, 0, 0, 1]), 0);
    assert_eq!(start_code_len(&[0, 0]), 0);
    assert_eq!(start_code_len(&[]), 0);
}

#[test]
fn idr_cavlc_offset_is_the_header_length() {
    let mut w = BitWriter::new();
    idr_header(&mut w);
    let (bits, rbsp) = payload(w);
    assert_eq!(bits, 34);
    let offset = compute_payload_bit_offset(&sps(), &pps(), 5, 0x65, &rbsp).unwrap();
    assert_eq!(offset as usize, 8 + bits);
}

#[test]
fn idr_cabac_offset_is_byte_aligned() {
    let mut w = BitWriter::new();
    idr_header(&mut w);
    let (bits, rbsp) = payload(w);
    let pps = H264Pps {
        entropy_coding_mode_flag: true,
        ..pps()
    };
    let offset = compute_payload_bit_offset(&sps(), &pps, 5, 0x65, &rbsp).unwrap();
    assert_eq!(bits, 34);
    assert_eq!(offset, 8 + 40);
    assert_eq!(offset % 8, 0);
}

#[test]
fn framing_and_escapes_do_not_move_the_offset() {
    let mut w = BitWriter::new();
    w.write_ue(0).unwrap();
    w.write_ue(7).unwrap();
    w.write_ue(0).unwrap();
    w.write_bits(0, 32);
    w.write_ue(0).unwrap();
    w.write_bits(0, 16);
    w.write_bits(0, 2);
    w.write_se(0).unwrap();
    w.write_ue(1).unwrap();
    let (bits, rbsp) = payload(w);
    let sps = H264Sps {
        log2_max_frame_num_minus4: 28,
        log2_max_pic_order_cnt_lsb_minus4: 12,
        ..sps()
    };
    let ebsp = rbsp_to_ebsp(&rbsp);
    assert!(ebsp.len() > rbsp.len());
    let mut four = vec![0, 0, 0, 1, 0x65];
    four.extend_from_slice(&ebsp);
    let mut three = vec![0, 0, 1, 0x65];
    three.extend_from_slice(&ebsp);
    let mut bare = vec![0x65];
    bare.extend_from_slice(&ebsp);
    for unit in [four, three, bare] {
        let offset = compute_slice_data_bit_offset(&sps, &pps(), 5, &unit).unwrap();
        assert_eq!(offset as usize, 8 + bits);
    }
    let direct = compute_payload_bit_offset(&sps, &pps(), 5, 0x65, &rbsp).unwrap();
    assert_eq!(direct as usize, 8 + bits);
}

#[test]
fn an_empty_nal_unit_has_no_offset() {
    for unit in [&[0u8, 0, 0, 1][..], &[0, 0, 1][..], &[][..]] {
        let error = compute_slice_data_bit_offset(&sps(), &pps(), 5, unit).unwrap_err();
        assert_eq!(message(error), "slice_data_bit_offset: empty slice NAL");
        let mut wide = sps();
        wide.log2_max_frame_num_minus4 = 200;
        let error = compute_slice_data_bit_offset(&wide, &pps(), 5, unit).unwrap_err();
        assert_eq!(message(error), "slice_data_bit_offset: empty slice NAL");
    }
}

#[test]
fn unreadable_codes_are_reported() {
    let error = compute_payload_bit_offset(&sps(), &pps(), 5, 0x65, &[0, 0, 0, 0, 1]).unwrap_err();
    assert_eq!(
        message(error),
        "bitstream parser: invalid bitstream data: ue(v): 32 or more leading zero bits"
    );
}

#[test]
fn picture_order_and_field_options_are_counted() {
    let sps = H264Sps {
        separate_colour_plane_flag: true,
        chroma_format_idc: 3,
        frame_mbs_only_flag: false,
        pic_order_cnt_type: 1,
        ..sps()
    };
    let pps = H264Pps {
        bottom_field_pic_order_in_frame_present_flag: true,
        redundant_pic_cnt_present_flag: true,
        deblocking_filter_control_present_flag: false,
        ..pps()
    };
    for field in [0u32, 1] {
        let mut w = BitWriter::new();
        w.write_ue(3).unwrap();
        w.write_ue(2).unwrap();
        w.write_ue(1).unwrap();
        w.write_bits(2, 2);
        w.write_bits(7, 4);
        w.write_bits(field, 1);
        if field == 1 {
            w.write_bits(1, 1);
        }
        w.write_se(5).unwrap();
        if field == 0 {
            w.write_se(-5).unwrap();
        }
        w.write_ue(2).unwrap();
        w.write_se(4).unwrap();
        let (bits, rbsp) = payload(w);
        let offset = compute_payload_bit_offset(&sps, &pps, 1, 0x01, &rbsp).unwrap();
        assert_eq!(offset as usize, 8 + bits);
    }
}

#[test]
fn predicted_slices_walk_lists_and_marking() {
    let mut w = BitWriter::new();
    inter_opening(&mut w, 5);
    w.write_bits(1, 1);
    w.write_ue(2).unwrap();
    w.write_bits(1, 1);
    w.write_ue(0).unwrap();
    w.write_ue(4).unwrap();
    w.write_ue(2).unwrap();
    w.write_ue(1).unwrap();
    w.write_ue(3).unwrap();
    w.write_bits(1, 1);
    for (operation, values) in [(1u32, 1usize), (2, 1), (3, 2), (4, 1), (5, 0), (6, 1)] {
        w.write_ue(operation).unwrap();
        for _ in 0..values {
            w.write_ue(6).unwrap();
        }
    }
    w.write_ue(0).unwrap();
    w.write_ue(2).unwrap();
    closing(&mut w);
    let (bits, rbsp) = payload(w);
    let pps = H264Pps {
        entropy_coding_mode_flag: true,
        ..pps()
    };
    let offset = compute_payload_bit_offset(&sps(), &pps, 1, 0x41, &rbsp).unwrap();
    assert_eq!(offset as usize, 8 + bits.div_ceil(8) * 8);
}

#[test]
fn bidirectional_slices_walk_both_lists() {
    let mut w = BitWriter::new();
    inter_opening(&mut w, 1);
    w.write_bits(1, 1);
    w.write_bits(1, 1);
    w.write_ue(1).unwrap();
    w.write_ue(1).unwrap();
    w.write_bits(0, 1);
    w.write_bits(1, 1);
    w.write_ue(1).unwrap();
    w.write_ue(0).unwrap();
    w.write_ue(3).unwrap();
    closing(&mut w);
    let (bits, rbsp) = payload(w);
    let offset = compute_payload_bit_offset(&sps(), &pps(), 1, 0x01, &rbsp).unwrap();
    assert_eq!(offset as usize, 8 + bits);
}

#[test]
fn switching_slices_carry_their_own_delta() {
    let mut w = BitWriter::new();
    inter_opening(&mut w, 3);
    w.write_bits(0, 1);
    w.write_bits(0, 1);
    w.write_bits(0, 1);
    w.write_se(1).unwrap();
    w.write_bits(1, 1);
    w.write_se(2).unwrap();
    w.write_ue(1).unwrap();
    let (bits, rbsp) = payload(w);
    let offset = compute_payload_bit_offset(&sps(), &pps(), 1, 0x41, &rbsp).unwrap();
    assert_eq!(offset as usize, 8 + bits);

    let mut w = BitWriter::new();
    inter_opening(&mut w, 9);
    w.write_bits(0, 1);
    w.write_se(1).unwrap();
    w.write_se(2).unwrap();
    w.write_ue(1).unwrap();
    let (bits, rbsp) = payload(w);
    let offset = compute_payload_bit_offset(&sps(), &pps(), 1, 0x41, &rbsp).unwrap();
    assert_eq!(offset as usize, 8 + bits);
}

#[test]
fn invalid_modifications_are_refused() {
    let mut w = BitWriter::new();
    inter_opening(&mut w, 0);
    w.write_bits(0, 1);
    w.write_bits(1, 1);
    w.write_ue(4).unwrap();
    let (_, rbsp) = payload(w);
    let error = compute_payload_bit_offset(&sps(), &pps(), 1, 0x01, &rbsp).unwrap_err();
    assert_eq!(
        message(error),
        "ref_pic_list_modification_l0: invalid modification_of_pic_nums_idc=4"
    );

    let mut w = BitWriter::new();
    inter_opening(&mut w, 6);
    w.write_bits(0, 1);
    w.write_bits(0, 1);
    w.write_bits(0, 1);
    w.write_bits(1, 1);
    w.write_ue(17).unwrap();
    let (_, rbsp) = payload(w);
    let error = compute_payload_bit_offset(&sps(), &pps(), 1, 0x01, &rbsp).unwrap_err();
    assert_eq!(message(error), "ref_pic_list_modification_l1: invalid m=17");
}

#[test]
fn open_modification_loops_are_refused() {
    // Each code 0 takes one bit, so the loop reads pairs up to the end.
    let mut w = BitWriter::new();
    inter_opening(&mut w, 0);
    w.write_bits(0, 1);
    w.write_bits(1, 1);
    while w.bit_pos() % 8 != 0 || w.bit_pos() < 40 {
        w.write_ue(0).unwrap();
    }
    let error = compute_payload_bit_offset(&sps(), &pps(), 1, 0x01, &w.finish()).unwrap_err();
    assert_eq!(
        message(error),
        "ref_pic_list_modification_l0: header ends before modification_of_pic_nums_idc=3"
    );

    let mut w = BitWriter::new();
    inter_opening(&mut w, 1);
    w.write_bits(0, 1);
    w.write_bits(0, 1);
    w.write_bits(0, 1);
    w.write_bits(1, 1);
    while w.bit_pos() % 8 != 0 || w.bit_pos() < 40 {
        w.write_ue(0).unwrap();
    }
    let error = compute_payload_bit_offset(&sps(), &pps(), 1, 0x01, &w.finish()).unwrap_err();
    assert_eq!(
        message(error),
        "ref_pic_list_modification_l1: header ends before modification_of_pic_nums_idc=3"
    );
}

#[test]
fn weighted_slices_are_refused() {
    let text = "compute_slice_data_bit_offset: pred_weight_table not implemented (fixture should not need it)";
    let weighted = H264Pps {
        weighted_pred_flag: true,
        weighted_bipred_idc: 1,
        ..pps()
    };
    let mut w = BitWriter::new();
    inter_opening(&mut w, 0);
    w.write_bits(0, 2);
    let (_, rbsp) = payload(w);
    let error = compute_payload_bit_offset(&sps(), &weighted, 1, 0x01, &rbsp).unwrap_err();
    assert_eq!(message(error), text);

    let mut w = BitWriter::new();
    inter_opening(&mut w, 1);
    w.write_bits(0, 4);
    let (_, rbsp) = payload(w);
    let error = compute_payload_bit_offset(&sps(), &weighted, 1, 0x01, &rbsp).unwrap_err();
    assert_eq!(message(error), text);

    let mut w = BitWriter::new();
    idr_header(&mut w);
    let (bits, rbsp) = payload(w);
    let offset = compute_payload_bit_offset(&sps(), &weighted, 5, 0x65, &rbsp).unwrap();
    assert_eq!(offset as usize, 8 + bits);
}

#[test]
fn invalid_marking_is_refused() {
    let mut w = BitWriter::new();
    inter_opening(&mut w, 2);
    w.write_bits(1, 1);
    w.write_ue(7).unwrap();
    let (_, rbsp) = payload(w);
    let error = compute_payload_bit_offset(&sps(), &pps(), 1, 0x61, &rbsp).unwrap_err();
    assert_eq!(message(error), "dec_ref_pic_marking: invalid mm=7");
}

#[test]
fn distant_slice_data_overflows() {
    let mut w = BitWriter::new();
    inter_opening(&mut w, 2);
    w.write_bits(1, 1);
    while w.bit_pos() < 66000 {
        w.write_ue(5).unwrap();
    }
    w.write_ue(0).unwrap();
    closing(&mut w);
    let (bits, rbsp) = payload(w);
    let error = compute_payload_bit_offset(&sps(), &pps(), 1, 0x61, &rbsp).unwrap_err();
    assert_eq!(
        message(error),
        format!("slice_data_bit_offset overflow: {}", bits + 8)
    );
}

#[test]
fn non_reference_slices_have_no_marking() {
    let mut w = BitWriter::new();
    inter_opening(&mut w, 2);
    closing(&mut w);
    let (bits, rbsp) = payload(w);
    let offset = compute_payload_bit_offset(&sps(), &pps(), 1, 0x01, &rbsp).unwrap();
    assert_eq!(offset as usize, 8 + bits);
}
