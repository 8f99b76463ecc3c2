use oxideav_vaapi::h264::H264FrameCropping;
use oxideav_vaapi::h264::H264Pps;
use oxideav_vaapi::h264::H264SliceHeader;
use oxideav_vaapi::h264::H264Sps;
use oxideav_vaapi::params::build_pic_param;
use oxideav_vaapi::params::build_slice_param;
use oxideav_vaapi::sys::VAIQMatrixBufferH264;
use oxideav_vaapi::sys::VAImage;
use oxideav_vaapi::sys::VAPictureH264;
use oxideav_vaapi::sys::VA_INVALID_SURFACE;

fn sps() -> H264Sps {
    H264Sps {
        level_idc: 40,
        chroma_format_idc: 1,
        separate_colour_plane_flag: false,
        bit_depth_luma_minus8: 2,
        bit_depth_chroma_minus8: 1,
        log2_max_frame_num_minus4: 5,
        pic_order_cnt_type: 2,
        log2_max_pic_order_cnt_lsb_minus4: 9,
        delta_pic_order_always_zero_flag: true,
        max_num_ref_frames: 0x104,
        gaps_in_frame_num_value_allowed_flag: true,
        pic_width_in_mbs_minus1: 0x1_0077,
        pic_height_in_map_units_minus1: 67,
        frame_mbs_only_flag: true,
        mb_adaptive_frame_field_flag: false,
        direct_8x8_inference_flag: true,
        frame_cropping: None,
    }
}

fn pps() -> H264Pps {
    H264Pps {
        entropy_coding_mode_flag: true,
        bottom_field_pic_order_in_frame_present_flag: false,
        num_ref_idx_l0_default_active_minus1: 3,
        num_ref_idx_l1_default_active_minus1: 4,
        weighted_pred_flag: true,
        weighted_bipred_idc: 2,
        pic_init_qp_minus26: -26,
        pic_init_qs_minus26: 300,
        chroma_qp_index_offset: -129,
        deblocking_filter_control_present_flag: true,
        constrained_intra_pred_flag: false,
        redundant_pic_cnt_present_flag: false,
        transform_8x8_mode_flag: true,
        second_chroma_qp_index_offset: 12,
    }
}

fn header() -> H264SliceHeader {
    H264SliceHeader {
        first_mb_in_slice: 0x2_0005,
        slice_type: 7,
        frame_num: 0x1_0003,
        field_pic_flag: true,
    }
}

#[test]
fn picture_parameters() {
    let p = build_pic_param(&sps(), &pps(), &header(), 42);
    assert_eq!(p.curr_pic.picture_id, 42);
    assert_eq!(p.curr_pic.frame_idx, 0x1_0003);
    assert_eq!(p.curr_pic.flags, 0);
    for picture in p.reference_frames {
        assert_eq!(picture.picture_id, VA_INVALID_SURFACE);
        assert_eq!(picture.flags, 1);
    }
    assert_eq!(p.picture_width_in_mbs_minus1, 0x77);
    assert_eq!(p.picture_height_in_mbs_minus1, 67);
    assert_eq!(p.bit_depth_luma_minus8, 2);
    assert_eq!(p.bit_depth_chroma_minus8, 1);
    assert_eq!(p.num_ref_frames, 4);
    // chroma 1, gaps, frames only, direct, bipred, 5 << 8, 2 << 12, 9 << 14, zero << 18
    let seq = 1 | 1 << 3 | 1 << 4 | 1 << 6 | 1 << 7 | 5 << 8 | 2 << 12 | 9 << 14 | 1 << 18;
    assert_eq!(p.seq_fields, seq);
    let pic = 1 | 1 << 1 | 2 << 2 | 1 << 4 | 1 << 5 | 1 << 8 | 1 << 10;
    assert_eq!(p.pic_fields, pic);
    assert_eq!(p.pic_init_qp_minus26, -26);
    assert_eq!(p.pic_init_qs_minus26, 300i32 as i8);
    assert_eq!(p.chroma_qp_index_offset, -129i32 as i8);
    assert_eq!(p.second_chroma_qp_index_offset, 12);
    assert_eq!(p.frame_num, 3);
    assert_eq!(p.num_slice_groups_minus1, 0);
    assert_eq!(p.va_reserved, [0; 8]);
}

#[test]
fn low_levels_have_no_minimum_prediction_size() {
    let low = H264Sps {
        level_idc: 30,
        ..sps()
    };
    let p = build_pic_param(&low, &pps(), &header(), 1);
    assert_eq!(p.seq_fields >> 7 & 1, 0);
    let edge = H264Sps {
        level_idc: 31,
        ..sps()
    };
    let p = build_pic_param(&edge, &pps(), &header(), 1);
    assert_eq!(p.seq_fields >> 7 & 1, 1);
}

#[test]
fn slice_parameters() {
    let s = build_slice_param(&pps(), &header(), 5, 6600, 4, 43);
    assert_eq!(s.slice_data_size, 6600);
    assert_eq!(s.slice_data_offset, 4);
    assert_eq!(s.slice_data_flag, 0);
    assert_eq!(s.slice_data_bit_offset, 43);
    assert_eq!(s.first_mb_in_slice, 5);
    assert_eq!(s.slice_type, 7);
    assert_eq!(s.num_ref_idx_l0_active_minus1, 3);
    assert_eq!(s.num_ref_idx_l1_active_minus1, 4);
    for picture in s.ref_pic_list0.iter().chain(s.ref_pic_list1.iter()) {
        assert_eq!(picture.picture_id, VA_INVALID_SURFACE);
        assert_eq!(picture.flags, 1);
    }
    assert_eq!(s.luma_weight_l0, [0; 32]);
    assert_eq!(s.chroma_offset_l1, [[0; 2]; 32]);
}

#[test]
fn fixed_structs() {
    let picture = VAPictureH264::invalid();
    assert_eq!(picture.picture_id, 0xFFFF_FFFF);
    assert_eq!(picture.flags, 1);
    let matrices = VAIQMatrixBufferH264::flat();
    assert!(matrices.scaling_list_4x4.iter().flatten().all(|v| *v == 16));
    assert!(matrices.scaling_list_8x8.iter().flatten().all(|v| *v == 16));
    let image = VAImage::zeroed();
    assert_eq!(image.data_size, 0);
    assert_eq!(image.pitches, [0; 3]);
}

#[test]
fn dimensions_are_whole_macroblocks() {
    let sps = H264Sps {
        pic_width_in_mbs_minus1: 19,
        pic_height_in_map_units_minus1: 14,
        ..sps()
    };
    assert!(sps.has_fitting_dimensions());
    assert_eq!((sps.coded_width(), sps.coded_height()), (320, 240));
    assert_eq!((sps.display_width(), sps.display_height()), (320, 240));
}

#[test]
fn cropping_units_depend_on_the_chroma_format() {
    let full_hd = H264Sps {
        pic_width_in_mbs_minus1: 119,
        pic_height_in_map_units_minus1: 67,
        frame_cropping: Some(H264FrameCropping {
            left: 1,
            right: 2,
            top: 0,
            bottom: 4,
        }),
        ..sps()
    };
    assert_eq!((full_hd.coded_width(), full_hd.coded_height()), (1920, 1088));
    assert_eq!((full_hd.display_width(), full_hd.display_height()), (1914, 1080));
    let wide = H264Sps {
        chroma_format_idc: 2,
        ..full_hd
    };
    assert_eq!((wide.display_width(), wide.display_height()), (1914, 1084));
    let full = H264Sps {
        chroma_format_idc: 3,
        ..full_hd
    };
    assert_eq!((full.display_width(), full.display_height()), (1917, 1084));
    let fields = H264Sps {
        pic_height_in_map_units_minus1: 33,
        frame_mbs_only_flag: false,
        ..full_hd
    };
    assert_eq!((fields.coded_height(), fields.display_height()), (1088, 1072));
    let mono = H264Sps {
        chroma_format_idc: 0,
        ..fields
    };
    assert_eq!((mono.display_width(), mono.display_height()), (1917, 1080));
}

#[test]
fn cropping_stops_at_zero() {
    let tiny = H264Sps {
        pic_width_in_mbs_minus1: 0,
        pic_height_in_map_units_minus1: 0,
        frame_cropping: Some(H264FrameCropping {
            left: 4,
            right: 5,
            top: 8,
            bottom: 0,
        }),
        ..sps()
    };
    assert_eq!((tiny.display_width(), tiny.display_height()), (0, 0));
}

#[test]
fn oversized_pictures_do_not_fit() {
    let wide = H264Sps {
        pic_width_in_mbs_minus1: 0x1000_0000,
        ..sps()
    };
    assert!(!wide.has_fitting_dimensions());
    let cropped = H264Sps {
        frame_cropping: Some(H264FrameCropping {
            left: 0,
            right: 0,
            top: u32::MAX,
            bottom: 1,
        }),
        ..sps()
    };
    assert!(!cropped.has_fitting_dimensions());
}

#[test]
fn code_widths_are_checked() {
    assert!(sps().has_readable_code_widths());
    let wide = H264Sps {
        log2_max_frame_num_minus4: 29,
        ..sps()
    };
    assert!(!wide.has_readable_code_widths());
    let unused = H264Sps {
        log2_max_pic_order_cnt_lsb_minus4: 29,
        ..sps()
    };
    assert!(unused.has_readable_code_widths());
    let used = H264Sps {
        pic_order_cnt_type: 0,
        ..unused
    };
    assert!(!used.has_readable_code_widths());
}
