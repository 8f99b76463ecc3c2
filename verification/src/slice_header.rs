//! The slice-header walk (7.3.3): where in a slice NAL unit `slice_data()`
//! begins, counted in bits from the NAL header byte with the
//! emulation-prevention bytes removed.

use vstd::arithmetic::power2::lemma2_to64;
use vstd::prelude::*;
use vstd::slice::slice_subrange;

use crate::bitstream::addressable;
use crate::bitstream::bit;
use crate::bitstream::bits;
use crate::bitstream::golomb_message;
use crate::bitstream::read_se;
use crate::bitstream::read_u;
use crate::bitstream::read_ue;
use crate::bitstream::ue_at;
use crate::bitstream::unescaped;
use crate::bitstream::zero_run;
use crate::error::VaError;
use crate::error::VaErrorView;
use crate::h264::H264Pps;
use crate::h264::H264SliceHeader;
use crate::h264::H264Sps;
use crate::h264::NAL_TYPE_IDR;
use crate::text::decimal;
use crate::text::joined;
use crate::text::numeral_text;

verus! {

/// Why a slice header has no usable `slice_data()` position.
pub enum HeaderFault {
    /// No NAL header byte follows the start code.
    EmptyNal,
    /// An Exp-Golomb code has 32 or more leading zeros.
    Golomb,
    /// `modification_of_pic_nums_idc` of list 0 is none of 0 to 3.
    RefListL0(nat),
    /// `modification_of_pic_nums_idc` of list 1 is none of 0 to 3.
    RefListL1(nat),
    /// The header ends inside the modification loop of list 0.
    OpenRefListL0,
    /// The header ends inside the modification loop of list 1.
    OpenRefListL1,
    /// The slice carries a prediction weight table.
    WeightTable,
    /// `memory_management_control_operation` is none of 0 to 6.
    Marking(nat),
    /// The position, in bits, does not fit in 16 bits.
    Overflow(nat),
}

impl HeaderFault {
    /// The description of the fault.
    pub open spec fn message(self) -> Seq<char> {
        match self {
            HeaderFault::EmptyNal => "slice_data_bit_offset: empty slice NAL"@,
            HeaderFault::Golomb => "bitstream parser: "@ + golomb_message(),
            HeaderFault::RefListL0(idc) =>
                "ref_pic_list_modification_l0: invalid modification_of_pic_nums_idc="@ + decimal(
                idc as int,
            ),
            HeaderFault::RefListL1(idc) => "ref_pic_list_modification_l1: invalid m="@ + decimal(
                idc as int,
            ),
            HeaderFault::OpenRefListL0 =>
                "ref_pic_list_modification_l0: header ends before modification_of_pic_nums_idc=3"@,
            HeaderFault::OpenRefListL1 =>
                "ref_pic_list_modification_l1: header ends before modification_of_pic_nums_idc=3"@,
            HeaderFault::WeightTable =>
                "compute_slice_data_bit_offset: pred_weight_table not implemented (fixture should not need it)"@,
            HeaderFault::Marking(operation) => "dec_ref_pic_marking: invalid mm="@ + decimal(
                operation as int,
            ),
            HeaderFault::Overflow(total) => "slice_data_bit_offset overflow: "@ + decimal(
                total as int,
            ),
        }
    }

    /// The error that reports the fault.
    pub open spec fn error(self) -> VaErrorView {
        VaErrorView::Va { status: 0, message: self.message() }
    }
}

/// A position in the walk, or the fault that ended it.
pub type Walk = Result<nat, HeaderFault>;

/// An executable step reached the position, or reported the fault, of a walk.
pub open spec fn follows(step: Result<usize, VaError>, walk: Walk) -> bool {
    match (step, walk) {
        (Ok(pos), Ok(expected)) => pos == expected,
        (Err(error), Err(fault)) => error@ == fault.error(),
        _ => false,
    }
}

/// Bits from `pos` to the end of the payload.
pub open spec fn bits_left(rbsp: Seq<u8>, pos: nat) -> nat {
    if pos < rbsp.len() * 8 {
        (rbsp.len() * 8 - pos) as nat
    } else {
        0
    }
}

/// The run of clear bits ends within the payload.
pub proof fn lemma_zero_run_ends(rbsp: Seq<u8>, pos: nat)
    ensures
        pos <= rbsp.len() * 8 ==> pos + zero_run(rbsp, pos) <= rbsp.len() * 8,
        pos >= rbsp.len() * 8 ==> zero_run(rbsp, pos) == 0,
    decreases bits_left(rbsp, pos),
{
    if pos < rbsp.len() * 8 {
        lemma_zero_run_ends(rbsp, pos + 1);
    }
}

/// An Exp-Golomb code read inside the payload takes at least one bit; read
/// anywhere it ends at most 31 bits past the end, or where it began.
pub proof fn lemma_ue_advances(rbsp: Seq<u8>, pos: nat)
    ensures
        ue_at(rbsp, pos) matches Some((_, next)) ==> {
            &&& pos <= next
            &&& pos < rbsp.len() * 8 ==> pos < next <= rbsp.len() * 8 + 31
            &&& pos >= rbsp.len() * 8 ==> next == pos
        },
        pos >= rbsp.len() * 8 ==> ue_at(rbsp, pos) == Some((0nat, pos)),
{
    reveal(ue_at);
    lemma_zero_run_ends(rbsp, pos);
    lemma2_to64();
}

/// Past one Exp-Golomb code, signed or unsigned.
pub open spec fn past_ue(rbsp: Seq<u8>, at: Walk) -> Walk {
    match at {
        Ok(pos) => match ue_at(rbsp, pos) {
            Some((_, next)) => Ok(next),
            None => Err(HeaderFault::Golomb),
        },
        Err(fault) => Err(fault),
    }
}

/// Past `n` bits.
pub open spec fn past_u(at: Walk, n: nat) -> Walk {
    match at {
        Ok(pos) => Ok(pos + n),
        Err(fault) => Err(fault),
    }
}

/// P and SP slices.
pub open spec fn is_p(slice_type: nat) -> bool {
    slice_type % 5 == 0 || slice_type % 5 == 3
}

/// B slices.
pub open spec fn is_b(slice_type: nat) -> bool {
    slice_type % 5 == 1
}

/// I and SI slices.
pub open spec fn is_i(slice_type: nat) -> bool {
    slice_type % 5 == 2 || slice_type % 5 == 4
}

/// SP slices.
pub open spec fn is_sp(slice_type: nat) -> bool {
    slice_type % 5 == 3
}

/// SI slices.
pub open spec fn is_si(slice_type: nat) -> bool {
    slice_type % 5 == 4
}

/// `first_mb_in_slice`, `slice_type` and `pic_parameter_set_id`: the slice
/// type and the position after the three.
pub open spec fn opening(rbsp: Seq<u8>) -> Result<(nat, nat), HeaderFault> {
    match past_ue(rbsp, Ok(0)) {
        Ok(type_pos) => match ue_at(rbsp, type_pos) {
            Some((slice_type, id_pos)) => match past_ue(rbsp, Ok(id_pos)) {
                Ok(pos) => Ok((slice_type, pos)),
                Err(fault) => Err(fault),
            },
            None => Err(HeaderFault::Golomb),
        },
        Err(fault) => Err(fault),
    }
}

/// `colour_plane_id`, `frame_num`, `field_pic_flag` and `bottom_field_flag`:
/// the field flag and the position after them.
pub open spec fn picture_fields(sps: H264Sps, rbsp: Seq<u8>, pos: nat) -> (bool, nat) {
    let plane: nat = if sps.separate_colour_plane_flag {
        2
    } else {
        0
    };
    let flag_pos: nat = pos + plane + sps.log2_max_frame_num_minus4 as nat + 4;
    if sps.frame_mbs_only_flag {
        (false, flag_pos)
    } else if bit(rbsp, flag_pos) {
        (true, flag_pos + 2)
    } else {
        (false, flag_pos + 1)
    }
}

/// The leading fields of a slice header; `None` where one of the Exp-Golomb
/// codes among them, up to `idr_pic_id`, is unreadable.
pub open spec fn leading_fields(sps: H264Sps, nal_unit_type: u8, rbsp: Seq<u8>) -> Option<
    H264SliceHeader,
> {
    match (ue_at(rbsp, 0), opening(rbsp)) {
        (Some((first_mb, _)), Ok((slice_type, pos))) => {
            let (field_pic, order_pos) = picture_fields(sps, rbsp, pos);
            let number_pos: nat = pos + if sps.separate_colour_plane_flag {
                2nat
            } else {
                0nat
            };
            if nal_unit_type == NAL_TYPE_IDR && ue_at(rbsp, order_pos) is None {
                None
            } else {
                Some(
                    H264SliceHeader {
                        first_mb_in_slice: first_mb as u32,
                        slice_type: (slice_type % 256) as u8,
                        frame_num: bits(
                            rbsp,
                            number_pos,
                            sps.log2_max_frame_num_minus4 as nat + 4,
                        ) as u32,
                        field_pic_flag: field_pic,
                    },
                )
            }
        },
        _ => None,
    }
}

/// `idr_pic_id`, the picture order count fields and `redundant_pic_cnt`.
pub open spec fn order_fields(
    sps: H264Sps,
    pps: H264Pps,
    nal_unit_type: u8,
    field_pic: bool,
    rbsp: Seq<u8>,
    pos: nat,
) -> Walk {
    let second = pps.bottom_field_pic_order_in_frame_present_flag && !field_pic;
    let idr = if nal_unit_type == NAL_TYPE_IDR {
        past_ue(rbsp, Ok(pos))
    } else {
        Ok(pos)
    };
    let first = if sps.pic_order_cnt_type == 0 {
        past_u(idr, sps.log2_max_pic_order_cnt_lsb_minus4 as nat + 4)
    } else if sps.pic_order_cnt_type == 1 && !sps.delta_pic_order_always_zero_flag {
        past_ue(rbsp, idr)
    } else {
        idr
    };
    let counted = if second && (sps.pic_order_cnt_type == 0 || sps.pic_order_cnt_type == 1
        && !sps.delta_pic_order_always_zero_flag) {
        past_ue(rbsp, first)
    } else {
        first
    };
    if pps.redundant_pic_cnt_present_flag {
        past_ue(rbsp, counted)
    } else {
        counted
    }
}

/// The `modification_of_pic_nums_idc` loop of one reference list (7.3.3.1),
/// up to the code 3 that closes it.
pub open spec fn modifications(second_list: bool, rbsp: Seq<u8>, pos: nat) -> Walk
    decreases bits_left(rbsp, pos),
{
    if pos >= rbsp.len() * 8 {
        Err(
            if second_list {
                HeaderFault::OpenRefListL1
            } else {
                HeaderFault::OpenRefListL0
            },
        )
    } else {
        proof {
            lemma_ue_advances(rbsp, pos);
            lemma_ue_advances(rbsp, ue_at(rbsp, pos)->Some_0.1);
        }
        match ue_at(rbsp, pos) {
            None => Err(HeaderFault::Golomb),
            Some((idc, next)) => if idc == 3 {
                Ok(next)
            } else if idc > 3 {
                Err(
                    if second_list {
                        HeaderFault::RefListL1(idc)
                    } else {
                        HeaderFault::RefListL0(idc)
                    },
                )
            } else {
                match ue_at(rbsp, next) {
                    None => Err(HeaderFault::Golomb),
                    Some((_, after)) => modifications(second_list, rbsp, after),
                }
            },
        }
    }
}

/// One `ref_pic_list_modification_flag` with the loop it announces.
pub open spec fn list_modification(second_list: bool, rbsp: Seq<u8>, at: Walk) -> Walk {
    match at {
        Ok(pos) => if bit(rbsp, pos) {
            modifications(second_list, rbsp, pos + 1)
        } else {
            Ok(pos + 1)
        },
        Err(fault) => Err(fault),
    }
}

/// `direct_spatial_mv_pred_flag` and the reference index override.
pub open spec fn override_fields(slice_type: nat, rbsp: Seq<u8>, pos: nat) -> Walk {
    let flag_pos: nat = if is_b(slice_type) {
        pos + 1
    } else {
        pos
    };
    if !is_p(slice_type) && !is_b(slice_type) {
        Ok(flag_pos)
    } else if !bit(rbsp, flag_pos) {
        Ok(flag_pos + 1)
    } else if is_b(slice_type) {
        past_ue(rbsp, past_ue(rbsp, Ok(flag_pos + 1)))
    } else {
        past_ue(rbsp, Ok(flag_pos + 1))
    }
}

/// Everything about reference lists, up to the place of the prediction
/// weight table.
pub open spec fn reference_fields(slice_type: nat, rbsp: Seq<u8>, pos: nat) -> Walk {
    let sized = override_fields(slice_type, rbsp, pos);
    let first = if is_i(slice_type) {
        sized
    } else {
        list_modification(false, rbsp, sized)
    };
    if is_b(slice_type) {
        list_modification(true, rbsp, first)
    } else {
        first
    }
}

/// The slice carries a `pred_weight_table()`.
pub open spec fn has_weight_table(pps: H264Pps, slice_type: nat) -> bool {
    ||| pps.weighted_pred_flag && is_p(slice_type)
    ||| pps.weighted_bipred_idc == 1 && is_b(slice_type)
}

/// The `memory_management_control_operation` loop (7.3.3.3), up to the
/// operation 0 that closes it.
pub open spec fn marking_operations(rbsp: Seq<u8>, pos: nat) -> Walk
    decreases bits_left(rbsp, pos),
{
    if pos >= rbsp.len() * 8 {
        Ok(pos)
    } else {
        proof {
            let next = ue_at(rbsp, pos)->Some_0.1;
            lemma_ue_advances(rbsp, pos);
            lemma_ue_advances(rbsp, next);
            lemma_ue_advances(rbsp, ue_at(rbsp, next)->Some_0.1);
        }
        match ue_at(rbsp, pos) {
            None => Err(HeaderFault::Golomb),
            Some((operation, next)) => if operation == 0 {
                Ok(next)
            } else if operation > 6 {
                Err(HeaderFault::Marking(operation))
            } else {
                let first = if operation == 5 {
                    Ok(next)
                } else {
                    past_ue(rbsp, Ok(next))
                };
                let second = if operation == 3 {
                    past_ue(rbsp, first)
                } else {
                    first
                };
                match second {
                    Ok(after) => marking_operations(rbsp, after),
                    Err(fault) => Err(fault),
                }
            },
        }
    }
}

/// `dec_ref_pic_marking()`, present when `nal_ref_idc` is not zero.
pub open spec fn marking_fields(
    nal_unit_type: u8,
    nal_ref_idc: u8,
    rbsp: Seq<u8>,
    pos: nat,
) -> Walk {
    if nal_ref_idc == 0 {
        Ok(pos)
    } else if nal_unit_type == NAL_TYPE_IDR {
        Ok(pos + 2)
    } else if bit(rbsp, pos) {
        marking_operations(rbsp, pos + 1)
    } else {
        Ok(pos + 1)
    }
}

/// `cabac_init_idc`, the quantiser deltas and the deblocking fields.
pub open spec fn closing_fields(pps: H264Pps, slice_type: nat, rbsp: Seq<u8>, pos: nat) -> Walk {
    let cabac = if pps.entropy_coding_mode_flag && !is_i(slice_type) {
        past_ue(rbsp, Ok(pos))
    } else {
        Ok(pos)
    };
    let quantiser = past_ue(rbsp, cabac);
    let switching = if is_sp(slice_type) {
        past_ue(rbsp, past_u(quantiser, 1))
    } else if is_si(slice_type) {
        past_ue(rbsp, quantiser)
    } else {
        quantiser
    };
    match switching {
        Ok(idc_pos) => if !pps.deblocking_filter_control_present_flag {
            Ok(idc_pos)
        } else {
            match ue_at(rbsp, idc_pos) {
                None => Err(HeaderFault::Golomb),
                Some((idc, next)) => if idc == 1 {
                    Ok(next)
                } else {
                    past_ue(rbsp, past_ue(rbsp, Ok(next)))
                },
            }
        },
        Err(fault) => Err(fault),
    }
}

/// The position of `slice_data()` in the payload of a slice NAL unit, before
/// any alignment.
pub open spec fn header_end(
    sps: H264Sps,
    pps: H264Pps,
    nal_unit_type: u8,
    nal_ref_idc: u8,
    rbsp: Seq<u8>,
) -> Walk {
    match opening(rbsp) {
        Err(fault) => Err(fault),
        Ok((slice_type, fields_pos)) => {
            let (field_pic, order_pos) = picture_fields(sps, rbsp, fields_pos);
            match order_fields(sps, pps, nal_unit_type, field_pic, rbsp, order_pos) {
                Err(fault) => Err(fault),
                Ok(lists_pos) => match reference_fields(slice_type, rbsp, lists_pos) {
                    Err(fault) => Err(fault),
                    Ok(marking_pos) => if has_weight_table(pps, slice_type) {
                        Err(HeaderFault::WeightTable)
                    } else {
                        match marking_fields(nal_unit_type, nal_ref_idc, rbsp, marking_pos) {
                            Err(fault) => Err(fault),
                            Ok(closing_pos) => closing_fields(pps, slice_type, rbsp, closing_pos),
                        }
                    },
                },
            }
        },
    }
}

/// `slice_data()` begins at the next byte boundary under CABAC, and at once
/// under CAVLC.
pub open spec fn data_start(cabac: bool, header_bits: nat) -> nat {
    if cabac && header_bits % 8 != 0 {
        (header_bits + 8 - header_bits % 8) as nat
    } else {
        header_bits
    }
}

/// `slice_data_bit_offset` of a slice NAL unit with header byte `nal_header`
/// and payload `rbsp`: the 8 bits of the header byte and the bits of the
/// slice header, up to the start of `slice_data()`.
pub open spec fn payload_bit_offset(
    sps: H264Sps,
    pps: H264Pps,
    nal_unit_type: u8,
    nal_header: u8,
    rbsp: Seq<u8>,
) -> Walk {
    match header_end(sps, pps, nal_unit_type, (nal_header >> 5) & 3, rbsp) {
        Err(fault) => Err(fault),
        Ok(pos) => {
            let total: nat = 8 + data_start(pps.entropy_coding_mode_flag, pos);
            if total > 0xFFFF {
                Err(HeaderFault::Overflow(total))
            } else {
                Ok(total)
            }
        },
    }
}

/// Length of the Annex-B start code that `slice_data` begins with.
pub open spec fn start_code(slice_data: Seq<u8>) -> nat {
    if seq![0u8, 0u8, 0u8, 1u8].is_prefix_of(slice_data) {
        4
    } else if seq![0u8, 0u8, 1u8].is_prefix_of(slice_data) {
        3
    } else {
        0
    }
}

/// `slice_data_bit_offset` of a slice NAL unit behind its start code.
pub open spec fn slice_data_bit_offset(
    sps: H264Sps,
    pps: H264Pps,
    nal_unit_type: u8,
    access_unit: Seq<u8>,
) -> Walk {
    let nal = access_unit.skip(start_code(access_unit) as int);
    if nal.len() == 0 {
        Err(HeaderFault::EmptyNal)
    } else {
        payload_bit_offset(sps, pps, nal_unit_type, nal[0], unescaped(nal.skip(1)))
    }
}

/// Length of the Annex-B start code at the beginning of `slice_data`: 4, 3,
/// or 0 where there is none.
pub fn start_code_len(slice_data: &[u8]) -> (len: usize)
    ensures
        len == start_code(slice_data@),
        len <= slice_data@.len(),
{
    if slice_data.len() >= 4 && slice_data[0] == 0 && slice_data[1] == 0 && slice_data[2] == 0
        && slice_data[3] == 1 {
        assert(seq![0u8, 0u8, 0u8, 1u8] =~= slice_data@.subrange(0, 4));
        4
    } else if slice_data.len() >= 3 && slice_data[0] == 0 && slice_data[1] == 0 && slice_data[2]
        == 1 {
        assert(seq![0u8, 0u8, 1u8] =~= slice_data@.subrange(0, 3));
        assert(slice_data@.len() >= 4 ==> slice_data@.subrange(0, 4)[2] == 1);
        3
    } else {
        0
    }
}

/// The error that reports a fault with a fixed description.
fn fault_error(message: &str) -> (error: VaError)
    ensures
        error@ == (VaErrorView::Va { status: 0, message: message@ }),
{
    VaError::Va { status: 0, message: message.to_string() }
}

/// The error that reports a fault described by a text and a number.
fn numbered_fault_error(message: &str, number: u64) -> (error: VaError)
    ensures
        error@ == (VaErrorView::Va { status: 0, message: message@ + decimal(number as int) }),
{
    VaError::Va { status: 0, message: joined(message, numeral_text(number, 10).as_str()) }
}

/// `pos` is a position that a walk over `rbsp` can be at.
pub open spec fn within_reach(rbsp: Seq<u8>, pos: nat) -> bool {
    &&& addressable(rbsp.len())
    &&& pos <= rbsp.len() * 8 + 0x1000
}

/// `next` lies at most `span` bits behind `pos`, or behind the end.
pub open spec fn within_span(rbsp: Seq<u8>, pos: nat, next: nat, span: nat) -> bool {
    pos <= next && (next <= pos + span || next <= rbsp.len() * 8 + span)
}

/// Read one unsigned Exp-Golomb code.
fn take_ue(rbsp: &[u8], pos: usize) -> (taken: Result<(u32, usize), VaError>)
    requires
        within_reach(rbsp@, pos as nat),
    ensures
        match taken {
            Ok((value, next)) => ue_at(rbsp@, pos as nat) == Some((value as nat, next as nat))
                && within_span(rbsp@, pos as nat, next as nat, 31),
            Err(error) => ue_at(rbsp@, pos as nat) is None && error@ == HeaderFault::Golomb.error(),
        },
{
    proof {
        lemma_ue_advances(rbsp@, pos as nat);
    }
    match read_ue(rbsp, pos) {
        Ok(read) => Ok(read),
        Err(text) => Err(fault_error(joined("bitstream parser: ", text.as_str()).as_str())),
    }
}

/// Step over one unsigned Exp-Golomb code.
fn skip_ue(rbsp: &[u8], pos: usize) -> (step: Result<usize, VaError>)
    requires
        within_reach(rbsp@, pos as nat),
    ensures
        follows(step, past_ue(rbsp@, Ok(pos as nat))),
        step matches Ok(next) ==> within_span(rbsp@, pos as nat, next as nat, 31),
{
    let (_, next): (u32, usize) = take_ue(rbsp, pos)?;
    Ok(next)
}

/// Step over one signed Exp-Golomb code.
fn skip_se(rbsp: &[u8], pos: usize) -> (step: Result<usize, VaError>)
    requires
        within_reach(rbsp@, pos as nat),
    ensures
        follows(step, past_ue(rbsp@, Ok(pos as nat))),
        step matches Ok(next) ==> within_span(rbsp@, pos as nat, next as nat, 31),
{
    proof {
        lemma_ue_advances(rbsp@, pos as nat);
    }
    match read_se(rbsp, pos) {
        Ok((_, next)) => Ok(next),
        Err(text) => Err(fault_error(joined("bitstream parser: ", text.as_str()).as_str())),
    }
}

/// Read one bit.
fn take_bit(rbsp: &[u8], pos: usize) -> (taken: (bool, usize))
    requires
        within_reach(rbsp@, pos as nat),
    ensures
        taken.0 == bit(rbsp@, pos as nat),
        taken.1 == pos + 1,
{
    let (value, next): (u32, usize) = read_u(rbsp, pos, 1);
    proof {
        reveal_with_fuel(bits, 2);
    }
    (value != 0, next)
}

/// Step over the three identifiers that open a slice header; also return the
/// slice type.
fn walk_opening(rbsp: &[u8]) -> (step: Result<(u32, usize), VaError>)
    requires
        addressable(rbsp@.len()),
    ensures
        match (step, opening(rbsp@)) {
            (Ok((slice_type, pos)), Ok((expected_type, expected))) => slice_type == expected_type
                && pos == expected && within_span(rbsp@, 0, pos as nat, 0x80),
            (Err(error), Err(fault)) => error@ == fault.error(),
            _ => false,
        },
{
    let type_pos: usize = skip_ue(rbsp, 0)?;
    let (slice_type, id_pos): (u32, usize) = take_ue(rbsp, type_pos)?;
    let pos: usize = skip_ue(rbsp, id_pos)?;
    Ok((slice_type, pos))
}

/// Step over the fields from `colour_plane_id` to `bottom_field_flag`; also
/// return `field_pic_flag`.
fn walk_picture_fields(sps: &H264Sps, rbsp: &[u8], pos: usize) -> (step: (bool, usize))
    requires
        sps.code_widths_readable(),
        within_reach(rbsp@, pos as nat + 0x80),
    ensures
        (step.0, step.1 as nat) == picture_fields(*sps, rbsp@, pos as nat),
        within_span(rbsp@, pos as nat, step.1 as nat, 0x80),
{
    let number_pos: usize = if sps.separate_colour_plane_flag {
        let (_, next): (u32, usize) = read_u(rbsp, pos, 2);
        next
    } else {
        pos
    };
    let (_, flag_pos): (u32, usize) = read_u(
        rbsp,
        number_pos,
        sps.log2_max_frame_num_minus4 as u32 + 4,
    );
    if sps.frame_mbs_only_flag {
        return (false, flag_pos);
    }
    let (field_pic, bottom_pos): (bool, usize) = take_bit(rbsp, flag_pos);
    if field_pic {
        let (_, next): (u32, usize) = read_u(rbsp, bottom_pos, 1);
        (true, next)
    } else {
        (false, bottom_pos)
    }
}

/// Step over `idr_pic_id`, the picture order count fields and
/// `redundant_pic_cnt`.
fn walk_order_fields(
    sps: &H264Sps,
    pps: &H264Pps,
    nal_unit_type: u8,
    field_pic: bool,
    rbsp: &[u8],
    pos: usize,
) -> (step: Result<usize, VaError>)
    requires
        sps.code_widths_readable(),
        within_reach(rbsp@, pos as nat + 0x80),
    ensures
        follows(
            step,
            order_fields(*sps, *pps, nal_unit_type, field_pic, rbsp@, pos as nat),
        ),
        step matches Ok(next) ==> within_span(rbsp@, pos as nat, next as nat, 0x80),
{
    let second: bool = pps.bottom_field_pic_order_in_frame_present_flag && !field_pic;
    let mut at: usize = pos;
    if nal_unit_type == NAL_TYPE_IDR {
        at = skip_ue(rbsp, at)?;
    }
    if sps.pic_order_cnt_type == 0 {
        let (_, next): (u32, usize) = read_u(
            rbsp,
            at,
            sps.log2_max_pic_order_cnt_lsb_minus4 as u32 + 4,
        );
        at = next;
        if second {
            at = skip_se(rbsp, at)?;
        }
    } else if sps.pic_order_cnt_type == 1 && !sps.delta_pic_order_always_zero_flag {
        at = skip_se(rbsp, at)?;
        if second {
            at = skip_se(rbsp, at)?;
        }
    }
    if pps.redundant_pic_cnt_present_flag {
        at = skip_ue(rbsp, at)?;
    }
    Ok(at)
}

/// Step over the modification loop of one reference list.
fn walk_modifications(second_list: bool, rbsp: &[u8], pos: usize) -> (step: Result<usize, VaError>)
    requires
        within_reach(rbsp@, pos as nat),
    ensures
        follows(step, modifications(second_list, rbsp@, pos as nat)),
        step matches Ok(next) ==> within_span(rbsp@, pos as nat, next as nat, 0x80),
{
    let total: usize = rbsp.len() * 8;
    let mut at: usize = pos;
    while at < total
        invariant
            addressable(rbsp@.len()),
            total == rbsp@.len() * 8,
            pos <= at,
            at == pos || at <= total + 62,
            modifications(second_list, rbsp@, at as nat) == modifications(
                second_list,
                rbsp@,
                pos as nat,
            ),
        decreases bits_left(rbsp@, at as nat),
    {
        let (idc, next): (u32, usize) = take_ue(rbsp, at)?;
        proof {
            lemma_ue_advances(rbsp@, at as nat);
            lemma_ue_advances(rbsp@, next as nat);
        }
        if idc == 3 {
            return Ok(next);
        }
        if idc > 3 {
            return Err(
                if second_list {
                    numbered_fault_error(
                        "ref_pic_list_modification_l1: invalid m=",
                        idc as u64,
                    )
                } else {
                    numbered_fault_error(
                        "ref_pic_list_modification_l0: invalid modification_of_pic_nums_idc=",
                        idc as u64,
                    )
                },
            );
        }
        at = skip_ue(rbsp, next)?;
    }
    Err(
        if second_list {
            fault_error(
                "ref_pic_list_modification_l1: header ends before modification_of_pic_nums_idc=3",
            )
        } else {
            fault_error(
                "ref_pic_list_modification_l0: header ends before modification_of_pic_nums_idc=3",
            )
        },
    )
}

/// Step over one `ref_pic_list_modification_flag` and the loop it announces.
fn walk_list_modification(second_list: bool, rbsp: &[u8], pos: usize) -> (step: Result<
    usize,
    VaError,
>)
    requires
        within_reach(rbsp@, pos as nat + 1),
    ensures
        follows(step, list_modification(second_list, rbsp@, Ok(pos as nat))),
        step matches Ok(next) ==> within_span(rbsp@, pos as nat, next as nat, 0x90),
{
    let (flag, next): (bool, usize) = take_bit(rbsp, pos);
    if flag {
        walk_modifications(second_list, rbsp, next)
    } else {
        Ok(next)
    }
}

/// Step over `direct_spatial_mv_pred_flag` and the reference index override.
fn walk_override_fields(slice_type: u32, rbsp: &[u8], pos: usize) -> (step: Result<usize, VaError>)
    requires
        within_reach(rbsp@, pos as nat + 0x80),
    ensures
        follows(step, override_fields(slice_type as nat, rbsp@, pos as nat)),
        step matches Ok(next) ==> within_span(rbsp@, pos as nat, next as nat, 0x80),
{
    let kind: u32 = slice_type % 5;
    let mut at: usize = pos;
    if kind == 1 {
        let (_, next): (u32, usize) = read_u(rbsp, at, 1);
        at = next;
    }
    if kind == 0 || kind == 3 || kind == 1 {
        let (overridden, next): (bool, usize) = take_bit(rbsp, at);
        at = next;
        if overridden {
            at = skip_ue(rbsp, at)?;
            if kind == 1 {
                at = skip_ue(rbsp, at)?;
            }
        }
    }
    Ok(at)
}

/// Step over everything about reference lists.
fn walk_reference_fields(slice_type: u32, rbsp: &[u8], pos: usize) -> (step: Result<
    usize,
    VaError,
>)
    requires
        within_reach(rbsp@, pos as nat + 0x200),
    ensures
        follows(step, reference_fields(slice_type as nat, rbsp@, pos as nat)),
        step matches Ok(next) ==> within_span(rbsp@, pos as nat, next as nat, 0x200),
{
    let kind: u32 = slice_type % 5;
    let mut at: usize = walk_override_fields(slice_type, rbsp, pos)?;
    if kind != 2 && kind != 4 {
        at = walk_list_modification(false, rbsp, at)?;
    }
    if kind == 1 {
        at = walk_list_modification(true, rbsp, at)?;
    }
    Ok(at)
}

/// Step over the memory management operations.
fn walk_marking_operations(rbsp: &[u8], pos: usize) -> (step: Result<usize, VaError>)
    requires
        within_reach(rbsp@, pos as nat),
    ensures
        follows(step, marking_operations(rbsp@, pos as nat)),
        step matches Ok(next) ==> within_span(rbsp@, pos as nat, next as nat, 0x80),
{
    let total: usize = rbsp.len() * 8;
    let mut at: usize = pos;
    while at < total
        invariant
            addressable(rbsp@.len()),
            total == rbsp@.len() * 8,
            pos <= at,
            at == pos || at <= total + 93,
            marking_operations(rbsp@, at as nat) == marking_operations(rbsp@, pos as nat),
        decreases bits_left(rbsp@, at as nat),
    {
        let (operation, next): (u32, usize) = take_ue(rbsp, at)?;
        proof {
            lemma_ue_advances(rbsp@, at as nat);
            lemma_ue_advances(rbsp@, next as nat);
            lemma_ue_advances(rbsp@, ue_at(rbsp@, next as nat)->Some_0.1);
        }
        if operation == 0 {
            return Ok(next);
        }
        if operation > 6 {
            return Err(numbered_fault_error("dec_ref_pic_marking: invalid mm=", operation as u64));
        }
        let mut after: usize = next;
        if operation != 5 {
            after = skip_ue(rbsp, after)?;
        }
        if operation == 3 {
            after = skip_ue(rbsp, after)?;
        }
        at = after;
    }
    Ok(at)
}

/// Step over `dec_ref_pic_marking()`.
fn walk_marking_fields(nal_unit_type: u8, nal_ref_idc: u8, rbsp: &[u8], pos: usize) -> (step:
    Result<usize, VaError>)
    requires
        within_reach(rbsp@, pos as nat + 2),
    ensures
        follows(step, marking_fields(nal_unit_type, nal_ref_idc, rbsp@, pos as nat)),
        step matches Ok(next) ==> within_span(rbsp@, pos as nat, next as nat, 0x90),
{
    if nal_ref_idc == 0 {
        return Ok(pos);
    }
    let (adaptive, next): (bool, usize) = take_bit(rbsp, pos);
    if nal_unit_type == NAL_TYPE_IDR {
        let (_, after): (u32, usize) = read_u(rbsp, next, 1);
        Ok(after)
    } else if adaptive {
        walk_marking_operations(rbsp, next)
    } else {
        Ok(next)
    }
}

/// Step over the fields from `cabac_init_idc` to the end of the header.
fn walk_closing_fields(pps: &H264Pps, slice_type: u32, rbsp: &[u8], pos: usize) -> (step: Result<
    usize,
    VaError,
>)
    requires
        within_reach(rbsp@, pos as nat + 0x100),
    ensures
        follows(step, closing_fields(*pps, slice_type as nat, rbsp@, pos as nat)),
        step matches Ok(next) ==> within_span(rbsp@, pos as nat, next as nat, 0x100),
{
    let kind: u32 = slice_type % 5;
    let mut at: usize = pos;
    if pps.entropy_coding_mode_flag && kind != 2 && kind != 4 {
        at = skip_ue(rbsp, at)?;
    }
    at = skip_se(rbsp, at)?;
    if kind == 3 || kind == 4 {
        if kind == 3 {
            let (_, next): (u32, usize) = read_u(rbsp, at, 1);
            at = next;
        }
        at = skip_se(rbsp, at)?;
    }
    if pps.deblocking_filter_control_present_flag {
        let (idc, next): (u32, usize) = take_ue(rbsp, at)?;
        at = next;
        if idc != 1 {
            at = skip_se(rbsp, at)?;
            at = skip_se(rbsp, at)?;
        }
    }
    Ok(at)
}

/// Step over a whole slice header.
fn walk_header(
    sps: &H264Sps,
    pps: &H264Pps,
    nal_unit_type: u8,
    nal_ref_idc: u8,
    rbsp: &[u8],
) -> (step: Result<usize, VaError>)
    requires
        sps.code_widths_readable(),
        addressable(rbsp@.len()),
    ensures
        follows(step, header_end(*sps, *pps, nal_unit_type, nal_ref_idc, rbsp@)),
        step matches Ok(pos) ==> within_reach(rbsp@, pos as nat),
{
    let (slice_type, fields_pos): (u32, usize) = walk_opening(rbsp)?;
    let (field_pic, order_pos): (bool, usize) = walk_picture_fields(sps, rbsp, fields_pos);
    let lists_pos: usize = walk_order_fields(sps, pps, nal_unit_type, field_pic, rbsp, order_pos)?;
    let marking_pos: usize = walk_reference_fields(slice_type, rbsp, lists_pos)?;
    let kind: u32 = slice_type % 5;
    if pps.weighted_pred_flag && (kind == 0 || kind == 3) || pps.weighted_bipred_idc == 1 && kind
        == 1 {
        return Err(
            fault_error(
                "compute_slice_data_bit_offset: pred_weight_table not implemented (fixture should not need it)",
            ),
        );
    }
    let closing_pos: usize = walk_marking_fields(nal_unit_type, nal_ref_idc, rbsp, marking_pos)?;
    walk_closing_fields(pps, slice_type, rbsp, closing_pos)
}

/// The number of bits before `slice_data()` in a slice NAL unit, counted from
/// its header byte `nal_header`; `rbsp` is the payload with the
/// emulation-prevention bytes removed.
pub fn compute_payload_bit_offset(
    sps: &H264Sps,
    pps: &H264Pps,
    nal_unit_type: u8,
    nal_header: u8,
    rbsp: &[u8],
) -> (offset: Result<u16, VaError>)
    requires
        sps.code_widths_readable(),
        addressable(rbsp@.len()),
    ensures
        match (offset, payload_bit_offset(*sps, *pps, nal_unit_type, nal_header, rbsp@)) {
            (Ok(bits), Ok(expected)) => bits == expected,
            (Err(error), Err(fault)) => error@ == fault.error(),
            _ => false,
        },
{
    let pos: usize = walk_header(sps, pps, nal_unit_type, (nal_header >> 5) & 3, rbsp)?;
    let header_bits: u64 = pos as u64;
    let rest: u64 = header_bits % 8;
    let total: u64 = if pps.entropy_coding_mode_flag && rest != 0 {
        8 + header_bits + (8 - rest)
    } else {
        8 + header_bits
    };
    if total > 0xFFFF {
        Err(numbered_fault_error("slice_data_bit_offset overflow: ", total))
    } else {
        Ok(total as u16)
    }
}

/// Removing emulation-prevention bytes never lengthens a payload.
pub proof fn lemma_unescaped_len(ebsp: Seq<u8>)
    ensures
        unescaped(ebsp).len() <= ebsp.len(),
    decreases ebsp.len(),
{
    if ebsp.len() == 0 {
    } else if ebsp.len() > 2 && ebsp[0] == 0 && ebsp[1] == 0 && ebsp[2] == 3 {
        lemma_unescaped_len(ebsp.skip(3));
    } else {
        lemma_unescaped_len(ebsp.skip(1));
    }
}

/// The number of bits before `slice_data()` in the slice NAL unit that
/// `access_unit` holds behind an optional start code: the NAL header byte and
/// the slice header, without the emulation-prevention bytes.
pub fn compute_slice_data_bit_offset(
    sps: &H264Sps,
    pps: &H264Pps,
    nal_unit_type: u8,
    access_unit: &[u8],
) -> (offset: Result<u16, VaError>)
    requires
        access_unit@.len() > start_code(access_unit@) ==> sps.code_widths_readable(),
        addressable(access_unit@.len()),
    ensures
        match (offset, slice_data_bit_offset(*sps, *pps, nal_unit_type, access_unit@)) {
            (Ok(bits), Ok(expected)) => bits == expected,
            (Err(error), Err(fault)) => error@ == fault.error(),
            _ => false,
        },
{
    let start: usize = start_code_len(access_unit);
    if access_unit.len() <= start {
        return Err(fault_error("slice_data_bit_offset: empty slice NAL"));
    }
    let ebsp: &[u8] = slice_subrange(access_unit, start + 1, access_unit.len());
    let rbsp: Vec<u8> = oxideav_bitstream::nal::ebsp_to_rbsp(ebsp);
    proof {
        lemma_unescaped_len(ebsp@);
        assert(access_unit@.skip(start as int).skip(1) =~= ebsp@);
    }
    compute_payload_bit_offset(sps, pps, nal_unit_type, access_unit[start], rbsp.as_slice())
}

/// A slice data offset counts the NAL header byte, and fits in 16 bits.
pub proof fn law_offset_covers_nal_header(
    sps: H264Sps,
    pps: H264Pps,
    nal_unit_type: u8,
    access_unit: Seq<u8>,
)
    ensures
        slice_data_bit_offset(sps, pps, nal_unit_type, access_unit) matches Ok(offset) ==> 8
            <= offset <= 0xFFFF,
{
}

/// Under CABAC slice data begins at a byte boundary.
pub proof fn law_cabac_offset_is_aligned(
    sps: H264Sps,
    pps: H264Pps,
    nal_unit_type: u8,
    access_unit: Seq<u8>,
)
    requires
        pps.entropy_coding_mode_flag,
    ensures
        slice_data_bit_offset(sps, pps, nal_unit_type, access_unit) matches Ok(offset) ==> offset
            % 8 == 0,
{
}

/// The start code, and emulation-prevention bytes in the payload, do not move
/// the offset: access units whose NAL units have one header byte and one raw
/// payload have one offset.
pub proof fn law_offset_ignores_framing(
    sps: H264Sps,
    pps: H264Pps,
    nal_unit_type: u8,
    a: Seq<u8>,
    b: Seq<u8>,
)
    requires
        a.len() > start_code(a),
        b.len() > start_code(b),
        a[start_code(a) as int] == b[start_code(b) as int],
        unescaped(a.skip(start_code(a) as int + 1)) == unescaped(b.skip(start_code(b) as int + 1)),
    ensures
        slice_data_bit_offset(sps, pps, nal_unit_type, a) == slice_data_bit_offset(
            sps,
            pps,
            nal_unit_type,
            b,
        ),
{
    assert(a.skip(start_code(a) as int).skip(1) =~= a.skip(start_code(a) as int + 1));
    assert(b.skip(start_code(b) as int).skip(1) =~= b.skip(start_code(b) as int + 1));
}

/// A slice with an offset has a NAL header byte behind its start code.
pub proof fn law_offset_needs_nal_header(
    sps: H264Sps,
    pps: H264Pps,
    nal_unit_type: u8,
    access_unit: Seq<u8>,
)
    ensures
        slice_data_bit_offset(sps, pps, nal_unit_type, access_unit) is Ok ==> start_code(
            access_unit,
        ) < access_unit.len(),
{
}

/// A slice header whose leading fields are unreadable has no offset either.
pub proof fn law_offset_needs_leading_fields(
    sps: H264Sps,
    pps: H264Pps,
    nal_unit_type: u8,
    nal_header: u8,
    rbsp: Seq<u8>,
)
    requires
        leading_fields(sps, nal_unit_type, rbsp) is None,
    ensures
        payload_bit_offset(sps, pps, nal_unit_type, nal_header, rbsp) == Err::<nat, HeaderFault>(
            HeaderFault::Golomb,
        ),
{
}

} // verus!
