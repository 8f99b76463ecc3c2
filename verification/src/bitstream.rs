//! The H.264 bitstream parser: what is relied on of `oxideav_bitstream`, and
//! the bit-level reading that those statements are made of.

use vstd::arithmetic::power2::pow2;
use vstd::prelude::*;

use crate::h264::H264FrameCropping;
use crate::h264::H264Pps;
use crate::h264::H264SliceHeader;
use crate::h264::H264Sps;
use crate::h264::NAL_TYPE_IDR;
use crate::slice_header::leading_fields;
use crate::slice_header::start_code;

verus! {

/// Bits that the parser may step past the end of its input.
pub const BIT_SLACK: usize = 0x10_0000;

/// Every bit position that parsing `len` bytes can reach fits in a `usize`.
pub open spec fn addressable(len: nat) -> bool {
    len * 8 + BIT_SLACK <= usize::MAX
}

/// Whether every bit position that parsing `len` bytes can reach fits in a
/// `usize`.
pub fn is_addressable(len: usize) -> (fits: bool)
    ensures
        fits == addressable(len as nat),
{
    len <= (usize::MAX - BIT_SLACK) / 8
}

/// Bit `pos` of `bytes`, counted from the most significant bit of the first
/// byte. Bits past the end are clear.
pub open spec fn bit(bytes: Seq<u8>, pos: nat) -> bool {
    pos / 8 < bytes.len() && (bytes[(pos / 8) as int] >> ((7 - pos % 8) as u8)) & 1 == 1
}

/// The `n` bits from `pos` on as an unsigned number, first bit most
/// significant.
pub open spec fn bits(bytes: Seq<u8>, pos: nat, n: nat) -> nat
    decreases n,
{
    if n == 0 {
        0
    } else {
        bits(bytes, pos, (n - 1) as nat) * 2 + if bit(bytes, (pos + n - 1) as nat) {
            1nat
        } else {
            0nat
        }
    }
}

/// Number of clear bits from `pos` up to the first set bit or the end.
pub open spec fn zero_run(bytes: Seq<u8>, pos: nat) -> nat
    decreases bytes.len() * 8 - pos,
{
    if pos >= bytes.len() * 8 || bit(bytes, pos) {
        0
    } else {
        1 + zero_run(bytes, pos + 1)
    }
}

/// The unsigned Exp-Golomb code at `pos` (9.1): its value and the position
/// after it, or `None` for a run of 32 or more leading zeros. Past the end
/// the value is 0 and nothing is consumed; a zero run that meets the end has
/// no stop bit, and its suffix reads as zeros.
#[verifier::opaque]
pub open spec fn ue_at(bytes: Seq<u8>, pos: nat) -> Option<(nat, nat)> {
    let zeros = zero_run(bytes, pos);
    let stop: nat = if pos + zeros < bytes.len() * 8 {
        1
    } else {
        0
    };
    if zeros >= 32 {
        None
    } else {
        Some(
            (
                (pow2(zeros) - 1 + bits(bytes, pos + zeros + stop, zeros)) as nat,
                pos + zeros + stop + zeros,
            ),
        )
    }
}

/// The signed value of an Exp-Golomb code number (9.1.1).
pub open spec fn signed_code(code: nat) -> int {
    if code % 2 == 1 {
        (code as int + 1) / 2
    } else {
        -(code as int / 2)
    }
}

/// Message of the parser's only Exp-Golomb fault.
pub open spec fn golomb_message() -> Seq<char> {
    "invalid bitstream data: ue(v): 32 or more leading zero bits"@
}

/// `oxideav_bitstream::bit_reader::BitReader::ue`, on a reader moved to bit
/// `pos` of `bytes`: the value is that of the unsigned Exp-Golomb code there,
/// paired with the position the reader is left at; a zero run of 32 or more
/// is the one fault.
#[verifier::external_body]
pub(crate) fn read_ue(bytes: &[u8], pos: usize) -> (read: Result<(u32, usize), String>)
    requires
        addressable(bytes@.len()),
        pos <= bytes@.len() * 8 + BIT_SLACK - 0x1000,
    ensures
        match read {
            Ok((value, next)) => ue_at(bytes@, pos as nat) == Some((value as nat, next as nat)),
            Err(fault) => ue_at(bytes@, pos as nat) is None && fault@ == golomb_message(),
        },
{
    let mut reader = oxideav_bitstream::bit_reader::BitReader::new(bytes);
    reader.skip(pos);
    let value = reader.ue().map_err(|e| e.to_string())?;
    Ok((value, reader.bit_pos()))
}

/// `oxideav_bitstream::bit_reader::BitReader::se`, on a reader moved to bit
/// `pos` of `bytes`: the signed value of the Exp-Golomb code there, paired
/// with the position the reader is left at; the fault is that of `ue`.
#[verifier::external_body]
pub(crate) fn read_se(bytes: &[u8], pos: usize) -> (read: Result<(i32, usize), String>)
    requires
        addressable(bytes@.len()),
        pos <= bytes@.len() * 8 + BIT_SLACK - 0x1000,
    ensures
        match read {
            Ok((value, next)) => ue_at(bytes@, pos as nat) matches Some((code, after)) && value
                == signed_code(code) && next == after,
            Err(fault) => ue_at(bytes@, pos as nat) is None && fault@ == golomb_message(),
        },
{
    let mut reader = oxideav_bitstream::bit_reader::BitReader::new(bytes);
    reader.skip(pos);
    let value = reader.se().map_err(|e| e.to_string())?;
    Ok((value, reader.bit_pos()))
}

/// `oxideav_bitstream::bit_reader::BitReader::u`, on a reader moved to bit
/// `pos` of `bytes`: the next `n` bits as a number, most significant first,
/// with zeros past the end, paired with the position after them.
#[verifier::external_body]
pub(crate) fn read_u(bytes: &[u8], pos: usize, n: u32) -> (read: (u32, usize))
    requires
        addressable(bytes@.len()),
        pos <= bytes@.len() * 8 + BIT_SLACK - 0x1000,
        n <= 32,
    ensures
        read.0 == bits(bytes@, pos as nat, n as nat),
        read.1 == pos + n,
{
    let mut reader = oxideav_bitstream::bit_reader::BitReader::new(bytes);
    reader.skip(pos);
    let value = reader.u(n);
    (value, reader.bit_pos())
}

/// The raw byte sequence payload of an escaped one: scanning from the front,
/// the `03` of every `00 00 03` is dropped.
pub open spec fn unescaped(ebsp: Seq<u8>) -> Seq<u8>
    decreases ebsp.len(),
{
    if ebsp.len() == 0 {
        seq![]
    } else if ebsp.len() > 2 && ebsp[0] == 0 && ebsp[1] == 0 && ebsp[2] == 3 {
        seq![0u8, 0u8] + unescaped(ebsp.skip(3))
    } else {
        seq![ebsp[0]] + unescaped(ebsp.skip(1))
    }
}

/// `oxideav_bitstream::nal::ebsp_to_rbsp` removes the emulation-prevention
/// bytes of a NAL payload.
pub assume_specification[ oxideav_bitstream::nal::ebsp_to_rbsp ](ebsp: &[u8]) -> (rbsp: Vec<u8>)
    ensures
        rbsp@ == unescaped(ebsp@),
;

/// `oxideav_bitstream::h264::nal_header` takes the three fields of a NAL
/// header byte apart: `forbidden_zero_bit`, `nal_ref_idc`, `nal_unit_type`.
pub assume_specification[ oxideav_bitstream::h264::nal_header ](byte: u8) -> (header: (u8, u8, u8))
    ensures
        header == ((byte >> 7) & 1, (byte >> 5) & 3, byte & 0x1f),
;

/// Number of bytes before the first start code; all of them without one.
pub open spec fn lead_in(buf: Seq<u8>) -> nat
    decreases buf.len(),
{
    if buf.len() == 0 || start_code(buf) > 0 {
        0
    } else {
        1 + lead_in(buf.skip(1))
    }
}

/// A lead-in ends at a start code or at the end.
pub proof fn lemma_lead_in(buf: Seq<u8>)
    ensures
        lead_in(buf) <= buf.len(),
        lead_in(buf) < buf.len() ==> start_code(buf.skip(lead_in(buf) as int)) > 0,
    decreases buf.len(),
{
    if buf.len() == 0 || start_code(buf) > 0 {
        assert(buf.skip(0) =~= buf);
    } else {
        let rest = buf.skip(1);
        lemma_lead_in(rest);
        assert(rest.skip(lead_in(rest) as int) =~= buf.skip(lead_in(buf) as int));
    }
}

/// The NAL units of an Annex-B stream: what lies between one start code and
/// the next, or the end. Bytes before the first start code belong to none.
pub open spec fn nal_units(buf: Seq<u8>) -> Seq<Seq<u8>>
    decreases buf.len(),
{
    if lead_in(buf) >= buf.len() {
        seq![]
    } else {
        proof {
            lemma_lead_in(buf);
        }
        let framed = buf.skip(lead_in(buf) as int);
        let body = framed.skip(start_code(framed) as int);
        seq![body.take(lead_in(body) as int)] + nal_units(body)
    }
}

/// `oxideav_bitstream::h264::split_annex_b` returns the NAL units of an
/// Annex-B stream in order, empty ones included.
pub assume_specification[ oxideav_bitstream::h264::split_annex_b ](buf: &[u8]) -> (nals: Vec<&[u8]>)
    ensures
        nals@.len() == nal_units(buf@).len(),
        forall|i: int| 0 <= i < nals@.len() ==> (#[trigger] nals@[i])@ == nal_units(buf@)[i],
;

/// The result of `oxideav_bitstream::h264::parse_sps_nal` on a NAL unit: the
/// parameter set, or the description of what is wrong with it.
pub uninterp spec fn sps_of_nal(nal: Seq<u8>) -> Result<H264Sps, Seq<char>>;

/// The result of `oxideav_bitstream::h264::parse_pps_nal` on a NAL unit: the
/// parameter set, or the description of what is wrong with it.
pub uninterp spec fn pps_of_nal(nal: Seq<u8>) -> Result<H264Pps, Seq<char>>;

/// What `oxideav_bitstream::h264::parse_idr_only` finds in a stream.
pub struct IdrParse {
    pub sps: H264Sps,
    pub pps: H264Pps,
    pub slice_header: H264SliceHeader,
    /// The bytes from the start code of the first IDR slice to the end.
    pub access_unit: Seq<u8>,
}

/// The result of `oxideav_bitstream::h264::parse_idr_only` on a stream: what
/// it found, or the description of what is missing or wrong.
pub uninterp spec fn idr_of_stream(stream: Seq<u8>) -> Result<IdrParse, Seq<char>>;

/// `oxideav_bitstream::h264::parse_sps_nal`, reduced to the fields of
/// [`H264Sps`], with the error as its text. The parser refuses `frame_num`
/// and `pic_order_cnt_lsb` codes of more than 16 bits.
#[verifier::external_body]
pub(crate) fn parse_sps_nal(nal: &[u8]) -> (parsed: Result<H264Sps, String>)
    requires
        addressable(nal@.len()),
    ensures
        match parsed {
            Ok(sps) => sps_of_nal(nal@) == Ok::<H264Sps, Seq<char>>(sps)
                && sps.code_widths_readable(),
            Err(text) => sps_of_nal(nal@) == Err::<H264Sps, Seq<char>>(text@),
        },
{
    let s = oxideav_bitstream::h264::parse_sps_nal(nal).map_err(|e| e.to_string())?;
    Ok(H264Sps { level_idc: s.level_idc, chroma_format_idc: s.chroma_format_idc, separate_colour_plane_flag: s.separate_colour_plane_flag,
        bit_depth_luma_minus8: s.bit_depth_luma_minus8, bit_depth_chroma_minus8: s.bit_depth_chroma_minus8,
        log2_max_frame_num_minus4: s.log2_max_frame_num_minus4, pic_order_cnt_type: s.pic_order_cnt_type,
        log2_max_pic_order_cnt_lsb_minus4: s.log2_max_pic_order_cnt_lsb_minus4,
        delta_pic_order_always_zero_flag: s.delta_pic_order_always_zero_flag, max_num_ref_frames: s.max_num_ref_frames,
        gaps_in_frame_num_value_allowed_flag: s.gaps_in_frame_num_value_allowed_flag,
        pic_width_in_mbs_minus1: s.pic_width_in_mbs_minus1, pic_height_in_map_units_minus1: s.pic_height_in_map_units_minus1,
        frame_mbs_only_flag: s.frame_mbs_only_flag, mb_adaptive_frame_field_flag: s.mb_adaptive_frame_field_flag,
        direct_8x8_inference_flag: s.direct_8x8_inference_flag,
        frame_cropping: s.frame_cropping.map(|c| H264FrameCropping { left: c.left, right: c.right, top: c.top, bottom: c.bottom }) })
}

/// `oxideav_bitstream::h264::parse_pps_nal`, reduced to the fields of
/// [`H264Pps`], with the error as its text.
#[verifier::external_body]
pub(crate) fn parse_pps_nal(nal: &[u8]) -> (parsed: Result<H264Pps, String>)
    requires
        addressable(nal@.len()),
    ensures
        match parsed {
            Ok(pps) => pps_of_nal(nal@) == Ok::<H264Pps, Seq<char>>(pps),
            Err(text) => pps_of_nal(nal@) == Err::<H264Pps, Seq<char>>(text@),
        },
{
    let p = oxideav_bitstream::h264::parse_pps_nal(nal).map_err(|e| e.to_string())?;
    Ok(H264Pps { entropy_coding_mode_flag: p.entropy_coding_mode_flag,
        bottom_field_pic_order_in_frame_present_flag: p.bottom_field_pic_order_in_frame_present_flag,
        num_ref_idx_l0_default_active_minus1: p.num_ref_idx_l0_default_active_minus1,
        num_ref_idx_l1_default_active_minus1: p.num_ref_idx_l1_default_active_minus1,
        weighted_pred_flag: p.weighted_pred_flag, weighted_bipred_idc: p.weighted_bipred_idc,
        pic_init_qp_minus26: p.pic_init_qp_minus26, pic_init_qs_minus26: p.pic_init_qs_minus26,
        chroma_qp_index_offset: p.chroma_qp_index_offset,
        deblocking_filter_control_present_flag: p.deblocking_filter_control_present_flag,
        constrained_intra_pred_flag: p.constrained_intra_pred_flag,
        redundant_pic_cnt_present_flag: p.redundant_pic_cnt_present_flag,
        transform_8x8_mode_flag: p.transform_8x8_mode_flag,
        second_chroma_qp_index_offset: p.second_chroma_qp_index_offset })
}

/// `oxideav_bitstream::h264::parse_slice_header_minimal`: the leading fields
/// of a slice header from the raw payload behind the NAL header byte, with
/// the error, an unreadable Exp-Golomb code, as its text. The function takes
/// a picture parameter set too and does not consult it.
#[verifier::external_body]
pub(crate) fn parse_slice_header_minimal(rbsp: &[u8], nal_unit_type: u8, sps: &H264Sps) -> (parsed:
    Result<H264SliceHeader, String>)
    requires
        addressable(rbsp@.len()),
        sps.code_widths_readable(),
    ensures
        match parsed {
            Ok(header) => leading_fields(*sps, nal_unit_type, rbsp@) == Some(header),
            Err(text) => leading_fields(*sps, nal_unit_type, rbsp@) is None && text@
                == golomb_message(),
        },
{
    let sps = oxideav_bitstream::h264::H264Sps { separate_colour_plane_flag: sps.separate_colour_plane_flag,
        log2_max_frame_num_minus4: sps.log2_max_frame_num_minus4, pic_order_cnt_type: sps.pic_order_cnt_type,
        log2_max_pic_order_cnt_lsb_minus4: sps.log2_max_pic_order_cnt_lsb_minus4,
        frame_mbs_only_flag: sps.frame_mbs_only_flag, ..Default::default() };
    let pps = oxideav_bitstream::h264::H264Pps::default();
    let h = oxideav_bitstream::h264::parse_slice_header_minimal(rbsp, nal_unit_type, &sps, &pps)
        .map_err(|e| e.to_string())?;
    Ok(H264SliceHeader { first_mb_in_slice: h.first_mb_in_slice, slice_type: h.slice_type, frame_num: h.frame_num,
        field_pic_flag: h.field_pic_flag })
}

/// `oxideav_bitstream::h264::parse_idr_only`: the sequence parameter set of
/// its result, with the error as its text. It comes from the parser of
/// [`parse_sps_nal`], so its code widths are bounded too.
#[verifier::external_body]
pub(crate) fn parse_idr_sps(stream: &[u8]) -> (parsed: Result<H264Sps, String>)
    requires
        addressable(stream@.len()),
    ensures
        match parsed {
            Ok(sps) => idr_of_stream(stream@) matches Ok(idr) && idr.sps == sps
                && sps.code_widths_readable(),
            Err(text) => idr_of_stream(stream@) == Err::<IdrParse, Seq<char>>(text@),
        },
{
    let s = oxideav_bitstream::h264::parse_idr_only(stream).map_err(|e| e.to_string())?.sps;
    Ok(H264Sps { level_idc: s.level_idc, chroma_format_idc: s.chroma_format_idc, separate_colour_plane_flag: s.separate_colour_plane_flag,
        bit_depth_luma_minus8: s.bit_depth_luma_minus8, bit_depth_chroma_minus8: s.bit_depth_chroma_minus8,
        log2_max_frame_num_minus4: s.log2_max_frame_num_minus4, pic_order_cnt_type: s.pic_order_cnt_type,
        log2_max_pic_order_cnt_lsb_minus4: s.log2_max_pic_order_cnt_lsb_minus4,
        delta_pic_order_always_zero_flag: s.delta_pic_order_always_zero_flag, max_num_ref_frames: s.max_num_ref_frames,
        gaps_in_frame_num_value_allowed_flag: s.gaps_in_frame_num_value_allowed_flag,
        pic_width_in_mbs_minus1: s.pic_width_in_mbs_minus1, pic_height_in_map_units_minus1: s.pic_height_in_map_units_minus1,
        frame_mbs_only_flag: s.frame_mbs_only_flag, mb_adaptive_frame_field_flag: s.mb_adaptive_frame_field_flag,
        direct_8x8_inference_flag: s.direct_8x8_inference_flag,
        frame_cropping: s.frame_cropping.map(|c| H264FrameCropping { left: c.left, right: c.right, top: c.top, bottom: c.bottom }) })
}

/// `access_unit` is the tail of a stream from the start code of an IDR slice
/// on.
pub open spec fn is_idr_tail(access_unit: Seq<u8>, stream: Seq<u8>) -> bool {
    &&& access_unit.len() <= stream.len()
    &&& access_unit == stream.skip(stream.len() - access_unit.len())
    &&& 0 < start_code(access_unit) < access_unit.len()
    &&& access_unit[start_code(access_unit) as int] & 0x1f == NAL_TYPE_IDR
}

/// `oxideav_bitstream::h264::parse_idr_only`: the picture parameter set, the
/// slice header and the access unit of its result, with the error as its
/// text. The access unit runs from the start code of the first IDR slice to
/// the end of the stream.
#[verifier::external_body]
pub(crate) fn parse_idr_slice(stream: &[u8]) -> (parsed: Result<
    (H264Pps, H264SliceHeader, &[u8]),
    String,
>)
    requires
        addressable(stream@.len()),
    ensures
        match parsed {
            Ok((pps, slice_header, access_unit)) => idr_of_stream(stream@) matches Ok(idr)
                && idr.pps == pps && idr.slice_header == slice_header && idr.access_unit
                == access_unit@ && is_idr_tail(access_unit@, stream@),
            Err(text) => idr_of_stream(stream@) == Err::<IdrParse, Seq<char>>(text@),
        },
{
    let i = oxideav_bitstream::h264::parse_idr_only(stream).map_err(|e| e.to_string())?;
    let (p, h) = (i.pps, i.slice_header);
    Ok((H264Pps { entropy_coding_mode_flag: p.entropy_coding_mode_flag,
        bottom_field_pic_order_in_frame_present_flag: p.bottom_field_pic_order_in_frame_present_flag,
        num_ref_idx_l0_default_active_minus1: p.num_ref_idx_l0_default_active_minus1,
        num_ref_idx_l1_default_active_minus1: p.num_ref_idx_l1_default_active_minus1,
        weighted_pred_flag: p.weighted_pred_flag, weighted_bipred_idc: p.weighted_bipred_idc, pic_init_qp_minus26: p.pic_init_qp_minus26,
        pic_init_qs_minus26: p.pic_init_qs_minus26, chroma_qp_index_offset: p.chroma_qp_index_offset,
        deblocking_filter_control_present_flag: p.deblocking_filter_control_present_flag,
        constrained_intra_pred_flag: p.constrained_intra_pred_flag, redundant_pic_cnt_present_flag: p.redundant_pic_cnt_present_flag,
        transform_8x8_mode_flag: p.transform_8x8_mode_flag, second_chroma_qp_index_offset: p.second_chroma_qp_index_offset },
        H264SliceHeader { first_mb_in_slice: h.first_mb_in_slice, slice_type: h.slice_type, frame_num: h.frame_num, field_pic_flag: h.field_pic_flag },
        i.idr_access_unit))
}

/// Input can be parsed exactly where eight times its length, and a mebibit of
/// slack, fit in a `usize`.
pub proof fn law_addressable_lengths(len: usize, fits: bool)
    requires
        call_ensures(is_addressable, (len,), fits),
    ensures
        fits <==> len * 8 + 0x10_0000 <= usize::MAX,
{
}

} // verus!
