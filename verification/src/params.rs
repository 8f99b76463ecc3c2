//! The H.264 parameter buffers that accompany a slice to the driver.

use vstd::prelude::*;

use crate::h264::H264Pps;
use crate::h264::H264SliceHeader;
use crate::h264::H264Sps;
use crate::sys::all_zero;
use crate::sys::VAPictureH264;
use crate::sys::VAPictureParameterBufferH264;
use crate::sys::VASliceParameterBufferH264;
use crate::sys::VASurfaceID;
use crate::sys::VA_SLICE_DATA_FLAG_ALL;

verus! {

/// The field of `width` bits that begins at bit `low` of a storage word.
pub open spec fn bit_field(word: u32, low: u32, width: u32) -> u32 {
    (word >> low) & ((1u32 << width) - 1) as u32
}

/// A flag as a one-bit field.
pub open spec fn flag_field(flag: bool) -> u32 {
    if flag {
        1
    } else {
        0
    }
}

/// The low eight bits of a number, read as a signed byte.
pub open spec fn low_i8(n: int) -> int {
    (n + 128) % 256 - 128
}

/// `word` is the storage word of the `seq_fields` bit-fields.
pub open spec fn is_seq_fields(word: u32, sps: H264Sps) -> bool {
    &&& bit_field(word, 0, 2) == sps.chroma_format_idc % 4
    &&& bit_field(word, 2, 1) == flag_field(sps.separate_colour_plane_flag)
    &&& bit_field(word, 3, 1) == flag_field(sps.gaps_in_frame_num_value_allowed_flag)
    &&& bit_field(word, 4, 1) == flag_field(sps.frame_mbs_only_flag)
    &&& bit_field(word, 5, 1) == flag_field(sps.mb_adaptive_frame_field_flag)
    &&& bit_field(word, 6, 1) == flag_field(sps.direct_8x8_inference_flag)
    &&& bit_field(word, 7, 1) == flag_field(sps.level_idc >= 31)
    &&& bit_field(word, 8, 4) == sps.log2_max_frame_num_minus4 % 16
    &&& bit_field(word, 12, 2) == sps.pic_order_cnt_type % 4
    &&& bit_field(word, 14, 4) == sps.log2_max_pic_order_cnt_lsb_minus4 % 16
    &&& bit_field(word, 18, 1) == flag_field(sps.delta_pic_order_always_zero_flag)
    &&& word >> 19 == 0
}

/// `word` is the storage word of the `pic_fields` bit-fields of a reference
/// picture.
pub open spec fn is_pic_fields(word: u32, pps: H264Pps, header: H264SliceHeader) -> bool {
    &&& bit_field(word, 0, 1) == flag_field(pps.entropy_coding_mode_flag)
    &&& bit_field(word, 1, 1) == flag_field(pps.weighted_pred_flag)
    &&& bit_field(word, 2, 2) == pps.weighted_bipred_idc % 4
    &&& bit_field(word, 4, 1) == flag_field(pps.transform_8x8_mode_flag)
    &&& bit_field(word, 5, 1) == flag_field(header.field_pic_flag)
    &&& bit_field(word, 6, 1) == flag_field(pps.constrained_intra_pred_flag)
    &&& bit_field(word, 7, 1) == flag_field(pps.bottom_field_pic_order_in_frame_present_flag)
    &&& bit_field(word, 8, 1) == flag_field(pps.deblocking_filter_control_present_flag)
    &&& bit_field(word, 9, 1) == flag_field(pps.redundant_pic_cnt_present_flag)
    &&& bit_field(word, 10, 1) == 1
    &&& word >> 11 == 0
}

fn flag_bit(flag: bool) -> (bit: u32)
    ensures
        bit == flag_field(flag),
        bit <= 1,
{
    if flag {
        1
    } else {
        0
    }
}

fn low_signed_byte(n: i32) -> (byte: i8)
    ensures
        byte == low_i8(n as int),
{
    let shifted: i64 = n as i64 + 0x1_0000_0080;
    ((shifted % 256) - 128) as i8
}

fn seq_fields(sps: &H264Sps) -> (word: u32)
    ensures
        is_seq_fields(word, *sps),
{
    let chroma: u32 = (sps.chroma_format_idc % 4) as u32;
    let planes: u32 = flag_bit(sps.separate_colour_plane_flag);
    let gaps: u32 = flag_bit(sps.gaps_in_frame_num_value_allowed_flag);
    let frames: u32 = flag_bit(sps.frame_mbs_only_flag);
    let adaptive: u32 = flag_bit(sps.mb_adaptive_frame_field_flag);
    let direct: u32 = flag_bit(sps.direct_8x8_inference_flag);
    let bipred: u32 = flag_bit(sps.level_idc >= 31);
    let number: u32 = (sps.log2_max_frame_num_minus4 % 16) as u32;
    let order: u32 = (sps.pic_order_cnt_type % 4) as u32;
    let lsb: u32 = (sps.log2_max_pic_order_cnt_lsb_minus4 % 16) as u32;
    let zero: u32 = flag_bit(sps.delta_pic_order_always_zero_flag);
    let word: u32 = chroma | planes << 2 | gaps << 3 | frames << 4 | adaptive << 5 | direct << 6
        | bipred << 7 | number << 8 | order << 12 | lsb << 14 | zero << 18;
    assert(bit_field(word, 0, 2) == chroma && bit_field(word, 2, 1) == planes && bit_field(
        word,
        3,
        1,
    ) == gaps && bit_field(word, 4, 1) == frames && bit_field(word, 5, 1) == adaptive && bit_field(
        word,
        6,
        1,
    ) == direct && bit_field(word, 7, 1) == bipred && bit_field(word, 8, 4) == number && bit_field(
        word,
        12,
        2,
    ) == order && bit_field(word, 14, 4) == lsb && bit_field(word, 18, 1) == zero && word >> 19
        == 0) by (bit_vector)
        requires
            chroma <= 3,
            planes <= 1,
            gaps <= 1,
            frames <= 1,
            adaptive <= 1,
            direct <= 1,
            bipred <= 1,
            number <= 15,
            order <= 3,
            lsb <= 15,
            zero <= 1,
            word == chroma | planes << 2 | gaps << 3 | frames << 4 | adaptive << 5 | direct << 6
                | bipred << 7 | number << 8 | order << 12 | lsb << 14 | zero << 18,
    ;
    word
}

fn pic_fields(pps: &H264Pps, header: &H264SliceHeader) -> (word: u32)
    ensures
        is_pic_fields(word, *pps, *header),
{
    let cabac: u32 = flag_bit(pps.entropy_coding_mode_flag);
    let weighted: u32 = flag_bit(pps.weighted_pred_flag);
    let bipred: u32 = (pps.weighted_bipred_idc % 4) as u32;
    let transform: u32 = flag_bit(pps.transform_8x8_mode_flag);
    let field: u32 = flag_bit(header.field_pic_flag);
    let intra: u32 = flag_bit(pps.constrained_intra_pred_flag);
    let order: u32 = flag_bit(pps.bottom_field_pic_order_in_frame_present_flag);
    let deblocking: u32 = flag_bit(pps.deblocking_filter_control_present_flag);
    let redundant: u32 = flag_bit(pps.redundant_pic_cnt_present_flag);
    let word: u32 = cabac | weighted << 1 | bipred << 2 | transform << 4 | field << 5 | intra << 6
        | order << 7 | deblocking << 8 | redundant << 9 | 1u32 << 10;
    assert(bit_field(word, 0, 1) == cabac && bit_field(word, 1, 1) == weighted && bit_field(
        word,
        2,
        2,
    ) == bipred && bit_field(word, 4, 1) == transform && bit_field(word, 5, 1) == field
        && bit_field(word, 6, 1) == intra && bit_field(word, 7, 1) == order && bit_field(
        word,
        8,
        1,
    ) == deblocking && bit_field(word, 9, 1) == redundant && bit_field(word, 10, 1) == 1 && word
        >> 11 == 0) by (bit_vector)
        requires
            cabac <= 1,
            weighted <= 1,
            bipred <= 3,
            transform <= 1,
            field <= 1,
            intra <= 1,
            order <= 1,
            deblocking <= 1,
            redundant <= 1,
            word == cabac | weighted << 1 | bipred << 2 | transform << 4 | field << 5 | intra << 6
                | order << 7 | deblocking << 8 | redundant << 9 | 1u32 << 10,
    ;
    word
}

/// `picture` is the surface that the driver decodes into.
pub open spec fn is_render_target(
    picture: VAPictureH264,
    surface: VASurfaceID,
    frame_num: u32,
) -> bool {
    &&& picture.picture_id == surface
    &&& picture.frame_idx == frame_num
    &&& picture.flags == 0
    &&& picture.top_field_order_cnt == 0
    &&& picture.bottom_field_order_cnt == 0
    &&& all_zero(picture.va_reserved)
}

/// `param` describes a picture without reference frames that is decoded into
/// `surface`. Fields wider than the buffer's keep their low bits.
pub open spec fn is_pic_param(
    param: VAPictureParameterBufferH264,
    sps: H264Sps,
    pps: H264Pps,
    header: H264SliceHeader,
    surface: VASurfaceID,
) -> bool {
    &&& is_render_target(param.curr_pic, surface, header.frame_num)
    &&& forall|i: int| 0 <= i < 16 ==> (#[trigger] param.reference_frames@[i]).is_invalid()
    &&& param.picture_width_in_mbs_minus1 == sps.pic_width_in_mbs_minus1 % 0x1_0000
    &&& param.picture_height_in_mbs_minus1 == sps.pic_height_in_map_units_minus1 % 0x1_0000
    &&& param.bit_depth_luma_minus8 == sps.bit_depth_luma_minus8
    &&& param.bit_depth_chroma_minus8 == sps.bit_depth_chroma_minus8
    &&& param.num_ref_frames == sps.max_num_ref_frames % 0x100
    &&& is_seq_fields(param.seq_fields, sps)
    &&& param.num_slice_groups_minus1 == 0
    &&& param.slice_group_map_type == 0
    &&& param.slice_group_change_rate_minus1 == 0
    &&& param.pic_init_qp_minus26 == low_i8(pps.pic_init_qp_minus26 as int)
    &&& param.pic_init_qs_minus26 == low_i8(pps.pic_init_qs_minus26 as int)
    &&& param.chroma_qp_index_offset == low_i8(pps.chroma_qp_index_offset as int)
    &&& param.second_chroma_qp_index_offset == low_i8(pps.second_chroma_qp_index_offset as int)
    &&& is_pic_fields(param.pic_fields, pps, header)
    &&& param.frame_num == header.frame_num % 0x1_0000
    &&& all_zero(param.va_reserved)
}

/// Describe a picture that is decoded into `surface` from the parameter sets
/// and the header of its slice.
pub fn build_pic_param(
    sps: &H264Sps,
    pps: &H264Pps,
    header: &H264SliceHeader,
    surface: VASurfaceID,
) -> (param: VAPictureParameterBufferH264)
    ensures
        is_pic_param(param, *sps, *pps, *header, surface),
{
    let invalid: VAPictureH264 = VAPictureH264::invalid();
    VAPictureParameterBufferH264 {
        curr_pic: VAPictureH264 {
            picture_id: surface,
            frame_idx: header.frame_num,
            flags: 0,
            top_field_order_cnt: 0,
            bottom_field_order_cnt: 0,
            va_reserved: [0; 4],
        },
        reference_frames: [invalid; 16],
        picture_width_in_mbs_minus1: (sps.pic_width_in_mbs_minus1 % 0x1_0000) as u16,
        picture_height_in_mbs_minus1: (sps.pic_height_in_map_units_minus1 % 0x1_0000) as u16,
        bit_depth_luma_minus8: sps.bit_depth_luma_minus8,
        bit_depth_chroma_minus8: sps.bit_depth_chroma_minus8,
        num_ref_frames: (sps.max_num_ref_frames % 0x100) as u8,
        seq_fields: seq_fields(sps),
        num_slice_groups_minus1: 0,
        slice_group_map_type: 0,
        slice_group_change_rate_minus1: 0,
        pic_init_qp_minus26: low_signed_byte(pps.pic_init_qp_minus26),
        pic_init_qs_minus26: low_signed_byte(pps.pic_init_qs_minus26),
        chroma_qp_index_offset: low_signed_byte(pps.chroma_qp_index_offset),
        second_chroma_qp_index_offset: low_signed_byte(pps.second_chroma_qp_index_offset),
        pic_fields: pic_fields(pps, header),
        frame_num: (header.frame_num % 0x1_0000) as u16,
        va_reserved: [0; 8],
    }
}

/// Every luma weight, or offset, of a list is zero.
pub open spec fn no_luma_weights(list: [i16; 32]) -> bool {
    forall|i: int| 0 <= i < 32 ==> #[trigger] list@[i] == 0
}

/// Every chroma weight, or offset, of a list is zero.
pub open spec fn no_chroma_weights(list: [[i16; 2]; 32]) -> bool {
    forall|i: int, plane: int|
        0 <= i < 32 && 0 <= plane < 2 ==> #[trigger] list@[i]@[plane] == 0
}

/// The prediction weight table is absent.
pub open spec fn has_no_weights(param: VASliceParameterBufferH264) -> bool {
    &&& param.luma_log2_weight_denom == 0
    &&& param.chroma_log2_weight_denom == 0
    &&& param.luma_weight_l0_flag == 0
    &&& no_luma_weights(param.luma_weight_l0)
    &&& no_luma_weights(param.luma_offset_l0)
    &&& param.chroma_weight_l0_flag == 0
    &&& no_chroma_weights(param.chroma_weight_l0)
    &&& no_chroma_weights(param.chroma_offset_l0)
    &&& param.luma_weight_l1_flag == 0
    &&& no_luma_weights(param.luma_weight_l1)
    &&& no_luma_weights(param.luma_offset_l1)
    &&& param.chroma_weight_l1_flag == 0
    &&& no_chroma_weights(param.chroma_weight_l1)
    &&& no_chroma_weights(param.chroma_offset_l1)
}

/// `param` describes a slice without references: where its data lies in the
/// slice data buffer, and where its entropy-coded part begins.
pub open spec fn is_slice_param(
    param: VASliceParameterBufferH264,
    pps: H264Pps,
    header: H264SliceHeader,
    slice_data_size: u32,
    slice_data_offset: u32,
    slice_data_bit_offset: u16,
) -> bool {
    &&& param.slice_data_size == slice_data_size
    &&& param.slice_data_offset == slice_data_offset
    &&& param.slice_data_flag == VA_SLICE_DATA_FLAG_ALL
    &&& param.slice_data_bit_offset == slice_data_bit_offset
    &&& param.first_mb_in_slice == header.first_mb_in_slice % 0x1_0000
    &&& param.slice_type == header.slice_type
    &&& param.direct_spatial_mv_pred_flag == 0
    &&& param.num_ref_idx_l0_active_minus1 == pps.num_ref_idx_l0_default_active_minus1
    &&& param.num_ref_idx_l1_active_minus1 == pps.num_ref_idx_l1_default_active_minus1
    &&& param.cabac_init_idc == 0
    &&& param.slice_qp_delta == 0
    &&& param.disable_deblocking_filter_idc == 0
    &&& param.slice_alpha_c0_offset_div2 == 0
    &&& param.slice_beta_offset_div2 == 0
    &&& forall|i: int|
        0 <= i < 32 ==> (#[trigger] param.ref_pic_list0@[i]).is_invalid()
    &&& forall|i: int| 0 <= i < 32 ==> (#[trigger] param.ref_pic_list1@[i]).is_invalid()
    &&& has_no_weights(param)
    &&& all_zero(param.va_reserved)
}

/// Describe a slice that is decoded without references. The NAL unit type
/// makes no difference.
pub fn build_slice_param(
    pps: &H264Pps,
    header: &H264SliceHeader,
    nal_unit_type: u8,
    slice_data_size: u32,
    slice_data_offset: u32,
    slice_data_bit_offset: u16,
) -> (param: VASliceParameterBufferH264)
    ensures
        is_slice_param(
            param,
            *pps,
            *header,
            slice_data_size,
            slice_data_offset,
            slice_data_bit_offset,
        ),
{
    let _ = nal_unit_type;
    let invalid: VAPictureH264 = VAPictureH264::invalid();
    VASliceParameterBufferH264 {
        slice_data_size,
        slice_data_offset,
        slice_data_flag: VA_SLICE_DATA_FLAG_ALL,
        slice_data_bit_offset,
        first_mb_in_slice: (header.first_mb_in_slice % 0x1_0000) as u16,
        slice_type: header.slice_type,
        direct_spatial_mv_pred_flag: 0,
        num_ref_idx_l0_active_minus1: pps.num_ref_idx_l0_default_active_minus1,
        num_ref_idx_l1_active_minus1: pps.num_ref_idx_l1_default_active_minus1,
        cabac_init_idc: 0,
        slice_qp_delta: 0,
        disable_deblocking_filter_idc: 0,
        slice_alpha_c0_offset_div2: 0,
        slice_beta_offset_div2: 0,
        ref_pic_list0: [invalid; 32],
        ref_pic_list1: [invalid; 32],
        luma_log2_weight_denom: 0,
        chroma_log2_weight_denom: 0,
        luma_weight_l0_flag: 0,
        luma_weight_l0: [0; 32],
        luma_offset_l0: [0; 32],
        chroma_weight_l0_flag: 0,
        chroma_weight_l0: [[0; 2]; 32],
        chroma_offset_l0: [[0; 2]; 32],
        luma_weight_l1_flag: 0,
        luma_weight_l1: [0; 32],
        luma_offset_l1: [0; 32],
        chroma_weight_l1_flag: 0,
        chroma_weight_l1: [[0; 2]; 32],
        chroma_offset_l1: [[0; 2]; 32],
        va_reserved: [0; 4],
    }
}

/// The weights of the bit-fields of the sequence word: the two bits of the
/// chroma format count 1, the three flags of the sampling 4, 8 and 16, and so
/// on up to the flag that counts 2^18.
pub proof fn law_sequence_word_is_a_sum(word: u32, sps: H264Sps)
    requires
        is_seq_fields(word, sps),
    ensures
        word == sps.chroma_format_idc % 4 + 4 * flag_field(sps.separate_colour_plane_flag) + 8
            * flag_field(sps.gaps_in_frame_num_value_allowed_flag) + 16 * flag_field(
            sps.frame_mbs_only_flag,
        ) + 32 * flag_field(sps.mb_adaptive_frame_field_flag) + 64 * flag_field(
            sps.direct_8x8_inference_flag,
        ) + 128 * flag_field(sps.level_idc >= 31) + 256 * (sps.log2_max_frame_num_minus4 % 16)
            + 4096 * (sps.pic_order_cnt_type % 4) + 16384 * (sps.log2_max_pic_order_cnt_lsb_minus4
            % 16) + 262144 * flag_field(sps.delta_pic_order_always_zero_flag),
{
    assert(word == bit_field(word, 0, 2) + 4 * bit_field(word, 2, 1) + 8 * bit_field(word, 3, 1)
        + 16 * bit_field(word, 4, 1) + 32 * bit_field(word, 5, 1) + 64 * bit_field(word, 6, 1)
        + 128 * bit_field(word, 7, 1) + 256 * bit_field(word, 8, 4) + 4096 * bit_field(word, 12, 2)
        + 16384 * bit_field(word, 14, 4) + 262144 * bit_field(word, 18, 1)) by (bit_vector)
        requires
            word >> 19 == 0,
    ;
}

/// The weights of the bit-fields of the picture word. The picture is always a
/// reference, which counts 1024.
pub proof fn law_picture_word_is_a_sum(word: u32, pps: H264Pps, header: H264SliceHeader)
    requires
        is_pic_fields(word, pps, header),
    ensures
        word == flag_field(pps.entropy_coding_mode_flag) + 2 * flag_field(pps.weighted_pred_flag)
            + 4 * (pps.weighted_bipred_idc % 4) + 16 * flag_field(pps.transform_8x8_mode_flag) + 32
            * flag_field(header.field_pic_flag) + 64 * flag_field(pps.constrained_intra_pred_flag)
            + 128 * flag_field(pps.bottom_field_pic_order_in_frame_present_flag) + 256
            * flag_field(pps.deblocking_filter_control_present_flag) + 512 * flag_field(
            pps.redundant_pic_cnt_present_flag,
        ) + 1024,
{
    assert(word == bit_field(word, 0, 1) + 2 * bit_field(word, 1, 1) + 4 * bit_field(word, 2, 2)
        + 16 * bit_field(word, 4, 1) + 32 * bit_field(word, 5, 1) + 64 * bit_field(word, 6, 1)
        + 128 * bit_field(word, 7, 1) + 256 * bit_field(word, 8, 1) + 512 * bit_field(word, 9, 1)
        + 1024 * bit_field(word, 10, 1)) by (bit_vector)
        requires
            word >> 11 == 0,
    ;
}

/// The parameters of a slice point where they are told to, take the numbers of
/// references of the picture parameter set, and override nothing.
pub proof fn law_slice_parameters_override_nothing(
    pps: &H264Pps,
    header: &H264SliceHeader,
    nal_unit_type: u8,
    size: u32,
    offset: u32,
    bit_offset: u16,
    param: VASliceParameterBufferH264,
)
    requires
        call_ensures(
            build_slice_param,
            (pps, header, nal_unit_type, size, offset, bit_offset),
            param,
        ),
    ensures
        param.slice_data_size == size && param.slice_data_offset == offset,
        param.slice_data_bit_offset == bit_offset && param.slice_data_flag == 0,
        param.slice_type == header.slice_type,
        header.first_mb_in_slice < 0x1_0000 ==> param.first_mb_in_slice == header.first_mb_in_slice,
        param.num_ref_idx_l0_active_minus1 == pps.num_ref_idx_l0_default_active_minus1,
        param.num_ref_idx_l1_active_minus1 == pps.num_ref_idx_l1_default_active_minus1,
        param.direct_spatial_mv_pred_flag == 0 && param.cabac_init_idc == 0,
        param.slice_qp_delta == 0 && param.disable_deblocking_filter_idc == 0,
        param.slice_alpha_c0_offset_div2 == 0 && param.slice_beta_offset_div2 == 0,
{
}

/// The parameters of a picture keep every number that fits its field.
pub proof fn law_picture_parameters_keep_what_fits(
    sps: &H264Sps,
    pps: &H264Pps,
    header: &H264SliceHeader,
    surface: VASurfaceID,
    param: VAPictureParameterBufferH264,
)
    requires
        call_ensures(build_pic_param, (sps, pps, header, surface), param),
    ensures
        param.curr_pic.picture_id == surface && param.curr_pic.frame_idx == header.frame_num,
        sps.pic_width_in_mbs_minus1 < 0x1_0000 ==> param.picture_width_in_mbs_minus1
            == sps.pic_width_in_mbs_minus1,
        sps.pic_height_in_map_units_minus1 < 0x1_0000 ==> param.picture_height_in_mbs_minus1
            == sps.pic_height_in_map_units_minus1,
        sps.max_num_ref_frames < 0x100 ==> param.num_ref_frames == sps.max_num_ref_frames,
        header.frame_num < 0x1_0000 ==> param.frame_num == header.frame_num,
        -128 <= pps.pic_init_qp_minus26 < 128 ==> param.pic_init_qp_minus26
            == pps.pic_init_qp_minus26,
        -128 <= pps.pic_init_qs_minus26 < 128 ==> param.pic_init_qs_minus26
            == pps.pic_init_qs_minus26,
        -128 <= pps.chroma_qp_index_offset < 128 ==> param.chroma_qp_index_offset
            == pps.chroma_qp_index_offset,
        -128 <= pps.second_chroma_qp_index_offset < 128 ==> param.second_chroma_qp_index_offset
            == pps.second_chroma_qp_index_offset,
        param.bit_depth_luma_minus8 == sps.bit_depth_luma_minus8,
        param.bit_depth_chroma_minus8 == sps.bit_depth_chroma_minus8,
{
}

} // verus!
