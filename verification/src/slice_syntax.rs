//! Slice headers as an encoder writes them: every syntax element of 7.3.3 in
//! its place, under the condition of the standard. What is written here is
//! what [`crate::slice_header`] reads.

use vstd::arithmetic::power2::lemma2_to64;
use vstd::arithmetic::power2::lemma_pow2_pos;
use vstd::arithmetic::power2::lemma_pow2_strictly_increases;
use vstd::arithmetic::power2::lemma_pow2_unfold;
use vstd::arithmetic::power2::pow2;
use vstd::prelude::*;

use crate::bitstream::bit;
use crate::bitstream::bits;
use crate::bitstream::ue_at;
use crate::bitstream::unescaped;
use crate::bitstream::zero_run;
use crate::codec::nal_step;
use crate::codec::CacheView;
use crate::codec::NalStep;
use crate::error::VaError;
use crate::error::VaErrorView;
use crate::h264::H264Pps;
use crate::h264::H264Sps;
use crate::slice_header::closing_fields;
use crate::slice_header::compute_payload_bit_offset;
use crate::slice_header::compute_slice_data_bit_offset;
use crate::slice_header::data_start;
use crate::slice_header::has_weight_table;
use crate::slice_header::header_end;
use crate::slice_header::leading_fields;
use crate::slice_header::list_modification;
use crate::slice_header::marking_fields;
use crate::slice_header::marking_operations;
use crate::slice_header::modifications;
use crate::slice_header::opening;
use crate::slice_header::order_fields;
use crate::slice_header::override_fields;
use crate::slice_header::past_ue;
use crate::slice_header::payload_bit_offset;
use crate::slice_header::picture_fields;
use crate::slice_header::reference_fields;
use crate::slice_header::slice_data_bit_offset;
use crate::slice_header::start_code;
use crate::slice_header::start_code_len;
use crate::slice_header::HeaderFault;
use crate::text::decimal;

verus! {

/// The bits of an `n`-bit number, most significant first.
pub open spec fn u_code(n: nat, value: nat) -> Seq<bool>
    decreases n,
{
    if n == 0 {
        seq![]
    } else {
        u_code((n - 1) as nat, value / 2).push(value % 2 == 1)
    }
}

/// Number of binary digits behind the leading one of `value + 1`.
pub open spec fn ue_suffix_len(value: nat) -> nat
    decreases value,
{
    if value == 0 {
        0
    } else {
        1 + ue_suffix_len(((value - 1) / 2) as nat)
    }
}

/// The unsigned Exp-Golomb code (9.1): the binary numeral of `value + 1`
/// behind one zero for each of its digits but the first.
pub open spec fn ue_code(value: nat) -> Seq<bool> {
    Seq::new(ue_suffix_len(value), |i: int| false) + u_code(ue_suffix_len(value) + 1, value + 1)
}

/// The signed Exp-Golomb code (9.1.1): 0, 1, -1, 2, -2 and so on are written
/// as 0, 1, 2, 3, 4.
pub open spec fn se_code(value: int) -> Seq<bool> {
    if value > 0 {
        ue_code((2 * value - 1) as nat)
    } else {
        ue_code((-2 * value) as nat)
    }
}

/// A one-bit flag.
pub open spec fn flag_code(flag: bool) -> Seq<bool> {
    seq![flag]
}

/// Syntax that is written only under a condition.
pub open spec fn given(present: bool, code: Seq<bool>) -> Seq<bool> {
    if present {
        code
    } else {
        seq![]
    }
}

/// A number that an unsigned Exp-Golomb code can carry.
pub open spec fn fits_ue(value: nat) -> bool {
    value < 0xFFFF_FFFF
}

/// A number that a signed Exp-Golomb code can carry.
pub open spec fn fits_se(value: int) -> bool {
    -0x8000_0000 < value < 0x8000_0000
}

/// `bytes` carry `code` from bit `pos` on.
pub open spec fn carries(bytes: Seq<u8>, pos: nat, code: Seq<bool>) -> bool {
    &&& pos + code.len() <= bytes.len() * 8
    &&& forall|k: int|
        0 <= k < code.len() ==> bit(bytes, (pos + k) as nat) == #[trigger] code[k]
}

pub proof fn lemma_carries_split(bytes: Seq<u8>, pos: nat, a: Seq<bool>, b: Seq<bool>)
    requires
        carries(bytes, pos, a + b),
    ensures
        carries(bytes, pos, a),
        carries(bytes, pos + a.len(), b),
{
    assert forall|k: int| 0 <= k < a.len() implies bit(bytes, (pos + k) as nat)
        == #[trigger] a[k] by {
        assert((a + b)[k] == a[k]);
    }
    assert forall|k: int| 0 <= k < b.len() implies bit(bytes, (pos + a.len() + k) as nat)
        == #[trigger] b[k] by {
        assert((a + b)[a.len() + k] == b[k]);
    }
}

proof fn lemma_u_code_len(n: nat, value: nat)
    ensures
        u_code(n, value).len() == n,
    decreases n,
{
    if n > 0 {
        lemma_u_code_len((n - 1) as nat, value / 2);
    }
}

/// A fixed-length code reads back as the number that was written.
proof fn lemma_u_reads_back(bytes: Seq<u8>, pos: nat, n: nat, value: nat)
    requires
        carries(bytes, pos, u_code(n, value)),
        value < pow2(n),
    ensures
        u_code(n, value).len() == n,
        bits(bytes, pos, n) == value,
    decreases n,
{
    lemma_u_code_len(n, value);
    lemma2_to64();
    if n > 0 {
        let m = (n - 1) as nat;
        lemma_pow2_unfold(n);
        lemma_u_code_len(m, value / 2);
        assert(u_code(n, value) =~= u_code(m, value / 2) + seq![value % 2 == 1]);
        lemma_carries_split(bytes, pos, u_code(m, value / 2), seq![value % 2 == 1]);
        assert(seq![value % 2 == 1][0] == (value % 2 == 1));
        lemma_u_reads_back(bytes, pos, m, value / 2);
    }
}

proof fn lemma_bits_bound(bytes: Seq<u8>, pos: nat, n: nat)
    ensures
        bits(bytes, pos, n) < pow2(n),
    decreases n,
{
    lemma2_to64();
    if n > 0 {
        lemma_pow2_unfold(n);
        lemma_bits_bound(bytes, pos, (n - 1) as nat);
    }
}

/// The first of `n + 1` bits weighs 2^n.
proof fn lemma_bits_first(bytes: Seq<u8>, pos: nat, n: nat)
    ensures
        bits(bytes, pos, n + 1) == bits(bytes, pos + 1, n) + if bit(bytes, pos) {
            pow2(n)
        } else {
            0
        },
    decreases n,
{
    lemma2_to64();
    if n == 0 {
        reveal_with_fuel(bits, 2);
    } else {
        lemma_pow2_unfold(n);
        lemma_bits_first(bytes, pos, (n - 1) as nat);
    }
}

proof fn lemma_suffix_len(value: nat)
    ensures
        pow2(ue_suffix_len(value)) <= value + 1 < pow2(ue_suffix_len(value) + 1),
    decreases value,
{
    lemma2_to64();
    if value > 0 {
        let half = ((value - 1) / 2) as nat;
        lemma_suffix_len(half);
        lemma_pow2_unfold(ue_suffix_len(value));
        lemma_pow2_unfold(ue_suffix_len(value) + 1);
    }
}

proof fn lemma_zero_run(bytes: Seq<u8>, pos: nat, zeros: nat)
    requires
        pos + zeros < bytes.len() * 8,
        bit(bytes, pos + zeros),
        forall|k: nat| k < zeros ==> !#[trigger] bit(bytes, pos + k),
    ensures
        zero_run(bytes, pos) == zeros,
    decreases zeros,
{
    if zeros > 0 {
        assert(!bit(bytes, pos + 0));
        assert forall|k: nat| k < zeros - 1 implies !#[trigger] bit(bytes, pos + 1 + k) by {
            assert(!bit(bytes, pos + (k + 1)));
        }
        lemma_zero_run(bytes, pos + 1, (zeros - 1) as nat);
    } else {
        assert(bit(bytes, pos));
    }
}

/// An unsigned Exp-Golomb code reads back as the number that was written.
pub proof fn law_ue_reads_back(bytes: Seq<u8>, pos: nat, value: nat)
    requires
        carries(bytes, pos, ue_code(value)),
        fits_ue(value),
    ensures
        ue_at(bytes, pos) == Some((value, pos + ue_code(value).len())),
        ue_code(value).len() > 0,
{
    let n = ue_suffix_len(value);
    let zeros = Seq::new(n, |i: int| false);
    let digits = u_code(n + 1, value + 1);
    lemma_suffix_len(value);
    lemma_u_code_len(n + 1, value + 1);
    lemma_carries_split(bytes, pos, zeros, digits);
    lemma_u_reads_back(bytes, pos + n, n + 1, value + 1);
    lemma_bits_first(bytes, pos + n, n);
    lemma_bits_bound(bytes, pos + n + 1, n);
    assert(bit(bytes, pos + n));
    assert forall|k: nat| k < n implies !#[trigger] bit(bytes, pos + k) by {
        assert(zeros[k as int] == false);
        assert(bit(bytes, (pos + k as int) as nat) == zeros[k as int]);
    }
    lemma_zero_run(bytes, pos, n);
    assert(n < 32) by {
        lemma2_to64();
        if n > 32 {
            lemma_pow2_strictly_increases(32, n);
        }
    }
    reveal(ue_at);
    lemma_pow2_pos(n);
}

/// The kinds of slices (Table 7-6).
pub enum SliceKind {
    P,
    B,
    I,
    SP,
    SI,
}

/// The kind that a `slice_type` stands for: the values repeat after five.
pub open spec fn slice_kind(slice_type: nat) -> SliceKind {
    let n = slice_type % 5;
    if n == 0 {
        SliceKind::P
    } else if n == 1 {
        SliceKind::B
    } else if n == 2 {
        SliceKind::I
    } else if n == 3 {
        SliceKind::SP
    } else {
        SliceKind::SI
    }
}

/// One pass of the reference list modification loop: what
/// `modification_of_pic_nums_idc` says, and the number that follows it.
pub enum ListModification {
    /// `abs_diff_pic_num_minus1`, to subtract (0).
    Subtract(nat),
    /// `abs_diff_pic_num_minus1`, to add (1).
    Increase(nat),
    /// `long_term_pic_num` (2).
    LongTerm(nat),
}

/// One pass of the reference marking loop: what
/// `memory_management_control_operation` says, and its operands.
pub enum Marking {
    /// `difference_of_pic_nums_minus1` (1).
    UnmarkShortTerm(nat),
    /// `long_term_pic_num` (2).
    UnmarkLongTerm(nat),
    /// `difference_of_pic_nums_minus1` and `long_term_frame_idx` (3).
    AssignLongTerm(nat, nat),
    /// `max_long_term_frame_idx_plus1` (4).
    LimitLongTerm(nat),
    /// No operand (5).
    UnmarkEverything,
    /// `long_term_frame_idx` (6).
    MarkCurrentLongTerm(nat),
}

/// The values of the syntax elements of a slice header (7.3.3). Those that a
/// header does not carry make no difference.
pub struct SliceSyntax {
    pub first_mb_in_slice: nat,
    pub slice_type: nat,
    pub pic_parameter_set_id: nat,
    pub colour_plane_id: nat,
    pub frame_num: nat,
    pub field_pic_flag: bool,
    pub bottom_field_flag: bool,
    pub idr_pic_id: nat,
    pub pic_order_cnt_lsb: nat,
    pub delta_pic_order_cnt_bottom: int,
    pub delta_pic_order_cnt_0: int,
    pub delta_pic_order_cnt_1: int,
    pub redundant_pic_cnt: nat,
    pub direct_spatial_mv_pred_flag: bool,
    pub num_ref_idx_active_override_flag: bool,
    pub num_ref_idx_l0_active_minus1: nat,
    pub num_ref_idx_l1_active_minus1: nat,
    /// The modifications of list 0, where its flag is set.
    pub modifications_l0: Option<Seq<ListModification>>,
    /// The modifications of list 1, where its flag is set.
    pub modifications_l1: Option<Seq<ListModification>>,
    pub no_output_of_prior_pics_flag: bool,
    pub long_term_reference_flag: bool,
    /// The markings, where the adaptive mode flag is set.
    pub markings: Option<Seq<Marking>>,
    pub cabac_init_idc: nat,
    pub slice_qp_delta: int,
    pub sp_for_switch_flag: bool,
    pub slice_qs_delta: int,
    pub disable_deblocking_filter_idc: nat,
    pub slice_alpha_c0_offset_div2: int,
    pub slice_beta_offset_div2: int,
}

/// A list modification as it is written.
pub open spec fn modification_code(step: ListModification) -> Seq<bool> {
    match step {
        ListModification::Subtract(n) => ue_code(0) + ue_code(n),
        ListModification::Increase(n) => ue_code(1) + ue_code(n),
        ListModification::LongTerm(n) => ue_code(2) + ue_code(n),
    }
}

/// The modifications of a list, without the code that closes them.
pub open spec fn modifications_code(steps: Seq<ListModification>) -> Seq<bool>
    decreases steps.len(),
{
    if steps.len() == 0 {
        seq![]
    } else {
        modification_code(steps[0]) + modifications_code(steps.skip(1))
    }
}

/// A reference marking as it is written.
pub open spec fn marking_code(step: Marking) -> Seq<bool> {
    match step {
        Marking::UnmarkShortTerm(n) => ue_code(1) + ue_code(n),
        Marking::UnmarkLongTerm(n) => ue_code(2) + ue_code(n),
        Marking::AssignLongTerm(n, index) => ue_code(3) + ue_code(n) + ue_code(index),
        Marking::LimitLongTerm(n) => ue_code(4) + ue_code(n),
        Marking::UnmarkEverything => ue_code(5),
        Marking::MarkCurrentLongTerm(n) => ue_code(6) + ue_code(n),
    }
}

/// The reference markings, without the code that closes them.
pub open spec fn markings_code(steps: Seq<Marking>) -> Seq<bool>
    decreases steps.len(),
{
    if steps.len() == 0 {
        seq![]
    } else {
        marking_code(steps[0]) + markings_code(steps.skip(1))
    }
}

/// From `first_mb_in_slice` to `pic_parameter_set_id`.
pub open spec fn identifiers_code(s: SliceSyntax) -> Seq<bool> {
    ue_code(s.first_mb_in_slice) + ue_code(s.slice_type) + ue_code(s.pic_parameter_set_id)
}

/// From `colour_plane_id` to `bottom_field_flag`.
pub open spec fn picture_code(sps: H264Sps, s: SliceSyntax) -> Seq<bool> {
    given(sps.separate_colour_plane_flag, u_code(2, s.colour_plane_id)) + u_code(
        sps.log2_max_frame_num_minus4 as nat + 4,
        s.frame_num,
    ) + given(
        !sps.frame_mbs_only_flag,
        flag_code(s.field_pic_flag) + given(s.field_pic_flag, flag_code(s.bottom_field_flag)),
    )
}

/// The slice is one of a frame that carries a second picture order count.
pub open spec fn counts_bottom_field(sps: H264Sps, pps: H264Pps, s: SliceSyntax) -> bool {
    pps.bottom_field_pic_order_in_frame_present_flag && (sps.frame_mbs_only_flag
        || !s.field_pic_flag)
}

/// From `idr_pic_id` to `redundant_pic_cnt`.
pub open spec fn order_code(
    sps: H264Sps,
    pps: H264Pps,
    nal_unit_type: nat,
    s: SliceSyntax,
) -> Seq<bool> {
    given(nal_unit_type == 5, ue_code(s.idr_pic_id)) + given(
        sps.pic_order_cnt_type == 0,
        u_code(sps.log2_max_pic_order_cnt_lsb_minus4 as nat + 4, s.pic_order_cnt_lsb) + given(
            counts_bottom_field(sps, pps, s),
            se_code(s.delta_pic_order_cnt_bottom),
        ),
    ) + given(
        sps.pic_order_cnt_type == 1 && !sps.delta_pic_order_always_zero_flag,
        se_code(s.delta_pic_order_cnt_0) + given(
            counts_bottom_field(sps, pps, s),
            se_code(s.delta_pic_order_cnt_1),
        ),
    ) + given(pps.redundant_pic_cnt_present_flag, ue_code(s.redundant_pic_cnt))
}

/// `direct_spatial_mv_pred_flag` and the reference index override.
pub open spec fn override_code(s: SliceSyntax) -> Seq<bool> {
    let kind = slice_kind(s.slice_type);
    given(kind is B, flag_code(s.direct_spatial_mv_pred_flag)) + given(
        kind is P || kind is SP || kind is B,
        flag_code(s.num_ref_idx_active_override_flag) + given(
            s.num_ref_idx_active_override_flag,
            ue_code(s.num_ref_idx_l0_active_minus1) + given(
                kind is B,
                ue_code(s.num_ref_idx_l1_active_minus1),
            ),
        ),
    )
}

/// The modification flag of one list, with the loop that it announces.
pub open spec fn list_code(steps: Option<Seq<ListModification>>) -> Seq<bool> {
    match steps {
        Some(steps) => flag_code(true) + (modifications_code(steps) + ue_code(3)),
        None => flag_code(false),
    }
}

/// `ref_pic_list_modification()`.
pub open spec fn lists_code(s: SliceSyntax) -> Seq<bool> {
    let kind = slice_kind(s.slice_type);
    given(!(kind is I) && !(kind is SI), list_code(s.modifications_l0)) + given(
        kind is B,
        list_code(s.modifications_l1),
    )
}

/// `dec_ref_pic_marking()`, which reference pictures carry.
pub open spec fn references_code(nal_unit_type: nat, nal_ref_idc: nat, s: SliceSyntax) -> Seq<
    bool,
> {
    given(
        nal_ref_idc != 0,
        if nal_unit_type == 5 {
            flag_code(s.no_output_of_prior_pics_flag) + flag_code(s.long_term_reference_flag)
        } else {
            match s.markings {
                Some(steps) => flag_code(true) + (markings_code(steps) + ue_code(0)),
                None => flag_code(false),
            }
        },
    )
}

/// From `cabac_init_idc` to the end of the header.
pub open spec fn closing_code(pps: H264Pps, s: SliceSyntax) -> Seq<bool> {
    let kind = slice_kind(s.slice_type);
    given(
        pps.entropy_coding_mode_flag && !(kind is I) && !(kind is SI),
        ue_code(s.cabac_init_idc),
    ) + se_code(s.slice_qp_delta) + given(kind is SP, flag_code(s.sp_for_switch_flag)) + given(
        kind is SP || kind is SI,
        se_code(s.slice_qs_delta),
    ) + given(
        pps.deblocking_filter_control_present_flag,
        ue_code(s.disable_deblocking_filter_idc) + given(
            s.disable_deblocking_filter_idc != 1,
            se_code(s.slice_alpha_c0_offset_div2) + se_code(s.slice_beta_offset_div2),
        ),
    )
}

/// A slice header without a prediction weight table, as it is written.
pub open spec fn header_code(
    sps: H264Sps,
    pps: H264Pps,
    nal_unit_type: nat,
    nal_ref_idc: nat,
    s: SliceSyntax,
) -> Seq<bool> {
    identifiers_code(s) + picture_code(sps, s) + order_code(sps, pps, nal_unit_type, s)
        + override_code(s) + lists_code(s) + references_code(nal_unit_type, nal_ref_idc, s)
        + closing_code(pps, s)
}

/// A prediction weight table follows the reference lists.
pub open spec fn writes_weight_table(pps: H264Pps, s: SliceSyntax) -> bool {
    let kind = slice_kind(s.slice_type);
    ||| pps.weighted_pred_flag && (kind is P || kind is SP)
    ||| pps.weighted_bipred_idc == 1 && kind is B
}

/// The number of a modification can be written.
pub open spec fn modification_fits(step: ListModification) -> bool {
    match step {
        ListModification::Subtract(n) => fits_ue(n),
        ListModification::Increase(n) => fits_ue(n),
        ListModification::LongTerm(n) => fits_ue(n),
    }
}

/// The operands of a marking can be written.
pub open spec fn marking_fits(step: Marking) -> bool {
    match step {
        Marking::UnmarkShortTerm(n) => fits_ue(n),
        Marking::UnmarkLongTerm(n) => fits_ue(n),
        Marking::AssignLongTerm(n, index) => fits_ue(n) && fits_ue(index),
        Marking::LimitLongTerm(n) => fits_ue(n),
        Marking::UnmarkEverything => true,
        Marking::MarkCurrentLongTerm(n) => fits_ue(n),
    }
}

/// The numbers of a list's modifications can be written.
pub open spec fn modifications_fit(steps: Seq<ListModification>) -> bool {
    forall|i: int| 0 <= i < steps.len() ==> modification_fits(#[trigger] steps[i])
}

/// The operands of all markings can be written.
pub open spec fn markings_fit(steps: Seq<Marking>) -> bool {
    forall|i: int| 0 <= i < steps.len() ==> marking_fits(#[trigger] steps[i])
}

/// Every value fits in the code that it is written as.
pub open spec fn syntax_fits(sps: H264Sps, s: SliceSyntax) -> bool {
    &&& fits_ue(s.first_mb_in_slice)
    &&& fits_ue(s.slice_type)
    &&& fits_ue(s.pic_parameter_set_id)
    &&& s.colour_plane_id < 4
    &&& s.frame_num < pow2(sps.log2_max_frame_num_minus4 as nat + 4)
    &&& fits_ue(s.idr_pic_id)
    &&& s.pic_order_cnt_lsb < pow2(sps.log2_max_pic_order_cnt_lsb_minus4 as nat + 4)
    &&& fits_se(s.delta_pic_order_cnt_bottom)
    &&& fits_se(s.delta_pic_order_cnt_0)
    &&& fits_se(s.delta_pic_order_cnt_1)
    &&& fits_ue(s.redundant_pic_cnt)
    &&& fits_ue(s.num_ref_idx_l0_active_minus1)
    &&& fits_ue(s.num_ref_idx_l1_active_minus1)
    &&& s.modifications_l0 matches Some(steps) ==> modifications_fit(steps)
    &&& s.modifications_l1 matches Some(steps) ==> modifications_fit(steps)
    &&& s.markings matches Some(steps) ==> markings_fit(steps)
    &&& fits_ue(s.cabac_init_idc)
    &&& fits_se(s.slice_qp_delta)
    &&& fits_se(s.slice_qs_delta)
    &&& fits_ue(s.disable_deblocking_filter_idc)
    &&& fits_se(s.slice_alpha_c0_offset_div2)
    &&& fits_se(s.slice_beta_offset_div2)
}

/// A signed Exp-Golomb code is stepped over as an unsigned one.
proof fn lemma_se_steps(bytes: Seq<u8>, pos: nat, value: int)
    requires
        carries(bytes, pos, se_code(value)),
        fits_se(value),
    ensures
        past_ue(bytes, Ok(pos)) == Ok::<nat, HeaderFault>(pos + se_code(value).len()),
{
    if value > 0 {
        law_ue_reads_back(bytes, pos, (2 * value - 1) as nat);
    } else {
        law_ue_reads_back(bytes, pos, (-2 * value) as nat);
    }
}

proof fn lemma_identifiers(rbsp: Seq<u8>, s: SliceSyntax)
    requires
        carries(rbsp, 0, identifiers_code(s)),
        fits_ue(s.first_mb_in_slice),
        fits_ue(s.slice_type),
        fits_ue(s.pic_parameter_set_id),
    ensures
        opening(rbsp) == Ok::<(nat, nat), HeaderFault>(
            (s.slice_type, identifiers_code(s).len()),
        ),
        ue_at(rbsp, 0) == Some((s.first_mb_in_slice, ue_code(s.first_mb_in_slice).len())),
{
    let (a, b, c) = (
        ue_code(s.first_mb_in_slice),
        ue_code(s.slice_type),
        ue_code(s.pic_parameter_set_id),
    );
    lemma_carries_split(rbsp, 0, a + b, c);
    lemma_carries_split(rbsp, 0, a, b);
    law_ue_reads_back(rbsp, 0, s.first_mb_in_slice);
    law_ue_reads_back(rbsp, a.len(), s.slice_type);
    law_ue_reads_back(rbsp, (a + b).len(), s.pic_parameter_set_id);
}

proof fn lemma_picture(sps: H264Sps, rbsp: Seq<u8>, pos: nat, s: SliceSyntax)
    requires
        carries(rbsp, pos, picture_code(sps, s)),
        s.frame_num < pow2(sps.log2_max_frame_num_minus4 as nat + 4),
    ensures
        picture_fields(sps, rbsp, pos) == (
            !sps.frame_mbs_only_flag && s.field_pic_flag,
            pos + picture_code(sps, s).len(),
        ),
        bits(
            rbsp,
            pos + given(sps.separate_colour_plane_flag, u_code(2, s.colour_plane_id)).len(),
            sps.log2_max_frame_num_minus4 as nat + 4,
        ) == s.frame_num,
        given(sps.separate_colour_plane_flag, u_code(2, s.colour_plane_id)).len() == (
        if sps.separate_colour_plane_flag {
            2nat
        } else {
            0nat
        }),
{
    let width = sps.log2_max_frame_num_minus4 as nat + 4;
    let a = given(sps.separate_colour_plane_flag, u_code(2, s.colour_plane_id));
    let b = u_code(width, s.frame_num);
    let bottom = given(s.field_pic_flag, flag_code(s.bottom_field_flag));
    let c = given(!sps.frame_mbs_only_flag, flag_code(s.field_pic_flag) + bottom);
    lemma_carries_split(rbsp, pos, a + b, c);
    lemma_carries_split(rbsp, pos, a, b);
    lemma_u_code_len(2, s.colour_plane_id);
    lemma_u_code_len(width, s.frame_num);
    lemma_u_reads_back(rbsp, pos + a.len(), width, s.frame_num);
    if !sps.frame_mbs_only_flag {
        lemma_carries_split(rbsp, pos + (a + b).len(), flag_code(s.field_pic_flag), bottom);
        assert(flag_code(s.field_pic_flag)[0] == s.field_pic_flag);
    }
}

proof fn lemma_order(
    sps: H264Sps,
    pps: H264Pps,
    nal_unit_type: u8,
    rbsp: Seq<u8>,
    pos: nat,
    s: SliceSyntax,
)
    requires
        carries(rbsp, pos, order_code(sps, pps, nal_unit_type as nat, s)),
        syntax_fits(sps, s),
    ensures
        order_fields(
            sps,
            pps,
            nal_unit_type,
            !sps.frame_mbs_only_flag && s.field_pic_flag,
            rbsp,
            pos,
        ) == Ok::<nat, HeaderFault>(
            pos + order_code(sps, pps, nal_unit_type as nat, s).len(),
        ),
        nal_unit_type == 5 ==> ue_at(rbsp, pos) is Some,
{
    let idr = given(nal_unit_type == 5, ue_code(s.idr_pic_id));
    let second = counts_bottom_field(sps, pps, s);
    let lsb = u_code(sps.log2_max_pic_order_cnt_lsb_minus4 as nat + 4, s.pic_order_cnt_lsb);
    let bottom = given(second, se_code(s.delta_pic_order_cnt_bottom));
    let by_lsb = given(sps.pic_order_cnt_type == 0, lsb + bottom);
    let delta_0 = se_code(s.delta_pic_order_cnt_0);
    let delta_1 = given(second, se_code(s.delta_pic_order_cnt_1));
    let by_delta = given(
        sps.pic_order_cnt_type == 1 && !sps.delta_pic_order_always_zero_flag,
        delta_0 + delta_1,
    );
    let redundant = given(pps.redundant_pic_cnt_present_flag, ue_code(s.redundant_pic_cnt));
    lemma_carries_split(rbsp, pos, idr + by_lsb + by_delta, redundant);
    lemma_carries_split(rbsp, pos, idr + by_lsb, by_delta);
    lemma_carries_split(rbsp, pos, idr, by_lsb);
    let p1 = pos + idr.len();
    let p2 = pos + (idr + by_lsb).len();
    let p3 = pos + (idr + by_lsb + by_delta).len();
    if nal_unit_type == 5 {
        law_ue_reads_back(rbsp, pos, s.idr_pic_id);
    }
    if sps.pic_order_cnt_type == 0 {
        lemma_carries_split(rbsp, p1, lsb, bottom);
        lemma_u_code_len(
            sps.log2_max_pic_order_cnt_lsb_minus4 as nat + 4,
            s.pic_order_cnt_lsb,
        );
        if second {
            lemma_se_steps(rbsp, p1 + lsb.len(), s.delta_pic_order_cnt_bottom);
        }
    } else if sps.pic_order_cnt_type == 1 && !sps.delta_pic_order_always_zero_flag {
        lemma_carries_split(rbsp, p2, delta_0, delta_1);
        lemma_se_steps(rbsp, p2, s.delta_pic_order_cnt_0);
        if second {
            lemma_se_steps(rbsp, p2 + delta_0.len(), s.delta_pic_order_cnt_1);
        }
    }
    if pps.redundant_pic_cnt_present_flag {
        law_ue_reads_back(rbsp, p3, s.redundant_pic_cnt);
    }
}

proof fn lemma_override(rbsp: Seq<u8>, pos: nat, s: SliceSyntax)
    requires
        carries(rbsp, pos, override_code(s)),
        fits_ue(s.num_ref_idx_l0_active_minus1),
        fits_ue(s.num_ref_idx_l1_active_minus1),
    ensures
        override_fields(s.slice_type, rbsp, pos) == Ok::<nat, HeaderFault>(
            pos + override_code(s).len(),
        ),
{
    let kind = slice_kind(s.slice_type);
    let direct = given(kind is B, flag_code(s.direct_spatial_mv_pred_flag));
    let flag = flag_code(s.num_ref_idx_active_override_flag);
    let l0 = ue_code(s.num_ref_idx_l0_active_minus1);
    let l1 = given(kind is B, ue_code(s.num_ref_idx_l1_active_minus1));
    let counts = given(s.num_ref_idx_active_override_flag, l0 + l1);
    let overriding = given(kind is P || kind is SP || kind is B, flag + counts);
    lemma_carries_split(rbsp, pos, direct, overriding);
    let p1 = pos + direct.len();
    if kind is P || kind is SP || kind is B {
        lemma_carries_split(rbsp, p1, flag, counts);
        assert(flag[0] == s.num_ref_idx_active_override_flag);
        if s.num_ref_idx_active_override_flag {
            lemma_carries_split(rbsp, p1 + 1, l0, l1);
            law_ue_reads_back(rbsp, p1 + 1, s.num_ref_idx_l0_active_minus1);
            if kind is B {
                law_ue_reads_back(rbsp, p1 + 1 + l0.len(), s.num_ref_idx_l1_active_minus1);
            }
        }
    }
}

proof fn lemma_modifications(
    second_list: bool,
    rbsp: Seq<u8>,
    pos: nat,
    steps: Seq<ListModification>,
)
    requires
        carries(rbsp, pos, modifications_code(steps) + ue_code(3)),
        modifications_fit(steps),
    ensures
        modifications(second_list, rbsp, pos) == Ok::<nat, HeaderFault>(
            pos + (modifications_code(steps) + ue_code(3)).len(),
        ),
    decreases steps.len(),
{
    if steps.len() == 0 {
        lemma_carries_split(rbsp, pos, modifications_code(steps), ue_code(3));
        law_ue_reads_back(rbsp, pos, 3);
    } else {
        let rest = steps.skip(1);
        let first = modification_code(steps[0]);
        let tail = modifications_code(rest) + ue_code(3);
        assert(modifications_code(steps) + ue_code(3) =~= first + tail);
        lemma_carries_split(rbsp, pos, first, tail);
        let (idc, n) = match steps[0] {
            ListModification::Subtract(n) => (0nat, n),
            ListModification::Increase(n) => (1nat, n),
            ListModification::LongTerm(n) => (2nat, n),
        };
        assert(modification_fits(steps[0]));
        assert(first == ue_code(idc) + ue_code(n));
        lemma_carries_split(rbsp, pos, ue_code(idc), ue_code(n));
        law_ue_reads_back(rbsp, pos, idc);
        law_ue_reads_back(rbsp, pos + ue_code(idc).len(), n);
        assert(modifications_fit(rest)) by {
            assert(forall|i: int| 0 <= i < rest.len() ==> #[trigger] rest[i] == steps[i + 1]);
        }
        lemma_modifications(second_list, rbsp, pos + first.len(), rest);
    }
}

proof fn lemma_list(
    second_list: bool,
    rbsp: Seq<u8>,
    pos: nat,
    steps: Option<Seq<ListModification>>,
)
    requires
        carries(rbsp, pos, list_code(steps)),
        steps matches Some(steps) ==> modifications_fit(steps),
    ensures
        list_modification(second_list, rbsp, Ok(pos)) == Ok::<nat, HeaderFault>(
            pos + list_code(steps).len(),
        ),
{
    match steps {
        Some(steps) => {
            let tail = modifications_code(steps) + ue_code(3);
            lemma_carries_split(rbsp, pos, flag_code(true), tail);
            assert(flag_code(true)[0]);
            lemma_modifications(second_list, rbsp, pos + 1, steps);
        },
        None => {
            assert(!flag_code(false)[0]);
        },
    }
}

proof fn lemma_references_of_lists(rbsp: Seq<u8>, pos: nat, s: SliceSyntax)
    requires
        carries(rbsp, pos, override_code(s) + lists_code(s)),
        fits_ue(s.num_ref_idx_l0_active_minus1),
        fits_ue(s.num_ref_idx_l1_active_minus1),
        s.modifications_l0 matches Some(steps) ==> modifications_fit(steps),
        s.modifications_l1 matches Some(steps) ==> modifications_fit(steps),
    ensures
        reference_fields(s.slice_type, rbsp, pos) == Ok::<nat, HeaderFault>(
            pos + (override_code(s) + lists_code(s)).len(),
        ),
{
    let kind = slice_kind(s.slice_type);
    let l0 = given(!(kind is I) && !(kind is SI), list_code(s.modifications_l0));
    let l1 = given(kind is B, list_code(s.modifications_l1));
    lemma_carries_split(rbsp, pos, override_code(s), lists_code(s));
    lemma_override(rbsp, pos, s);
    let p1 = pos + override_code(s).len();
    lemma_carries_split(rbsp, p1, l0, l1);
    if !(kind is I) && !(kind is SI) {
        lemma_list(false, rbsp, p1, s.modifications_l0);
    }
    if kind is B {
        lemma_list(true, rbsp, p1 + l0.len(), s.modifications_l1);
    }
}

proof fn lemma_markings(rbsp: Seq<u8>, pos: nat, steps: Seq<Marking>)
    requires
        carries(rbsp, pos, markings_code(steps) + ue_code(0)),
        markings_fit(steps),
    ensures
        marking_operations(rbsp, pos) == Ok::<nat, HeaderFault>(
            pos + (markings_code(steps) + ue_code(0)).len(),
        ),
    decreases steps.len(),
{
    if steps.len() == 0 {
        lemma_carries_split(rbsp, pos, markings_code(steps), ue_code(0));
        law_ue_reads_back(rbsp, pos, 0);
    } else {
        let rest = steps.skip(1);
        let first = marking_code(steps[0]);
        let tail = markings_code(rest) + ue_code(0);
        assert(markings_code(steps) + ue_code(0) =~= first + tail);
        lemma_carries_split(rbsp, pos, first, tail);
        assert(marking_fits(steps[0]));
        assert(markings_fit(rest)) by {
            assert(forall|i: int| 0 <= i < rest.len() ==> #[trigger] rest[i] == steps[i + 1]);
        }
        lemma_markings(rbsp, pos + first.len(), rest);
        match steps[0] {
            Marking::UnmarkEverything => {
                law_ue_reads_back(rbsp, pos, 5);
            },
            Marking::AssignLongTerm(n, index) => {
                lemma_carries_split(rbsp, pos, ue_code(3) + ue_code(n), ue_code(index));
                lemma_carries_split(rbsp, pos, ue_code(3), ue_code(n));
                law_ue_reads_back(rbsp, pos, 3);
                law_ue_reads_back(rbsp, pos + ue_code(3).len(), n);
                law_ue_reads_back(rbsp, pos + (ue_code(3) + ue_code(n)).len(), index);
            },
            _ => {
                let (operation, n) = match steps[0] {
                    Marking::UnmarkShortTerm(n) => (1nat, n),
                    Marking::UnmarkLongTerm(n) => (2nat, n),
                    Marking::LimitLongTerm(n) => (4nat, n),
                    Marking::MarkCurrentLongTerm(n) => (6nat, n),
                    _ => (0nat, 0nat),
                };
                assert(first == ue_code(operation) + ue_code(n));
                lemma_carries_split(rbsp, pos, ue_code(operation), ue_code(n));
                law_ue_reads_back(rbsp, pos, operation);
                law_ue_reads_back(rbsp, pos + ue_code(operation).len(), n);
            },
        }
    }
}

proof fn lemma_references(
    nal_unit_type: u8,
    nal_ref_idc: u8,
    rbsp: Seq<u8>,
    pos: nat,
    s: SliceSyntax,
)
    requires
        carries(rbsp, pos, references_code(nal_unit_type as nat, nal_ref_idc as nat, s)),
        s.markings matches Some(steps) ==> markings_fit(steps),
    ensures
        marking_fields(nal_unit_type, nal_ref_idc, rbsp, pos) == Ok::<nat, HeaderFault>(
            pos + references_code(nal_unit_type as nat, nal_ref_idc as nat, s).len(),
        ),
{
    if nal_ref_idc != 0 && nal_unit_type != 5 {
        match s.markings {
            Some(steps) => {
                let tail = markings_code(steps) + ue_code(0);
                lemma_carries_split(rbsp, pos, flag_code(true), tail);
                assert(flag_code(true)[0]);
                lemma_markings(rbsp, pos + 1, steps);
            },
            None => {
                assert(!flag_code(false)[0]);
            },
        }
    }
}

proof fn lemma_closing(pps: H264Pps, rbsp: Seq<u8>, pos: nat, s: SliceSyntax)
    requires
        carries(rbsp, pos, closing_code(pps, s)),
        fits_ue(s.cabac_init_idc),
        fits_se(s.slice_qp_delta),
        fits_se(s.slice_qs_delta),
        fits_ue(s.disable_deblocking_filter_idc),
        fits_se(s.slice_alpha_c0_offset_div2),
        fits_se(s.slice_beta_offset_div2),
    ensures
        closing_fields(pps, s.slice_type, rbsp, pos) == Ok::<nat, HeaderFault>(
            pos + closing_code(pps, s).len(),
        ),
{
    let kind = slice_kind(s.slice_type);
    let cabac = given(
        pps.entropy_coding_mode_flag && !(kind is I) && !(kind is SI),
        ue_code(s.cabac_init_idc),
    );
    let qp = se_code(s.slice_qp_delta);
    let switch = given(kind is SP, flag_code(s.sp_for_switch_flag));
    let qs = given(kind is SP || kind is SI, se_code(s.slice_qs_delta));
    let idc = ue_code(s.disable_deblocking_filter_idc);
    let alpha = se_code(s.slice_alpha_c0_offset_div2);
    let beta = se_code(s.slice_beta_offset_div2);
    let offsets = given(s.disable_deblocking_filter_idc != 1, alpha + beta);
    let deblocking = given(pps.deblocking_filter_control_present_flag, idc + offsets);
    lemma_carries_split(rbsp, pos, cabac + qp + switch + qs, deblocking);
    lemma_carries_split(rbsp, pos, cabac + qp + switch, qs);
    lemma_carries_split(rbsp, pos, cabac + qp, switch);
    lemma_carries_split(rbsp, pos, cabac, qp);
    let p1 = pos + cabac.len();
    let p2 = pos + (cabac + qp).len();
    let p3 = pos + (cabac + qp + switch).len();
    let p4 = pos + (cabac + qp + switch + qs).len();
    if pps.entropy_coding_mode_flag && !(kind is I) && !(kind is SI) {
        law_ue_reads_back(rbsp, pos, s.cabac_init_idc);
    }
    lemma_se_steps(rbsp, p1, s.slice_qp_delta);
    if kind is SP || kind is SI {
        lemma_se_steps(rbsp, p3, s.slice_qs_delta);
    }
    if pps.deblocking_filter_control_present_flag {
        lemma_carries_split(rbsp, p4, idc, offsets);
        law_ue_reads_back(rbsp, p4, s.disable_deblocking_filter_idc);
        if s.disable_deblocking_filter_idc != 1 {
            lemma_carries_split(rbsp, p4 + idc.len(), alpha, beta);
            lemma_se_steps(rbsp, p4 + idc.len(), s.slice_alpha_c0_offset_div2);
            lemma_se_steps(rbsp, p4 + idc.len() + alpha.len(), s.slice_beta_offset_div2);
        }
    }
}

/// The header up to the place of the prediction weight table.
pub open spec fn header_front_code(
    sps: H264Sps,
    pps: H264Pps,
    nal_unit_type: nat,
    s: SliceSyntax,
) -> Seq<bool> {
    identifiers_code(s) + picture_code(sps, s) + order_code(sps, pps, nal_unit_type, s) + (
    override_code(s) + lists_code(s))
}

/// What the parts of a header in front of the reference lists are read as.
proof fn lemma_before_lists(
    sps: H264Sps,
    pps: H264Pps,
    nal_unit_type: u8,
    rbsp: Seq<u8>,
    s: SliceSyntax,
)
    requires
        carries(
            rbsp,
            0,
            identifiers_code(s) + picture_code(sps, s) + order_code(
                sps,
                pps,
                nal_unit_type as nat,
                s,
            ),
        ),
        syntax_fits(sps, s),
    ensures
        ({
            let (a, b, c) = (
                identifiers_code(s),
                picture_code(sps, s),
                order_code(sps, pps, nal_unit_type as nat, s),
            );
            let field = !sps.frame_mbs_only_flag && s.field_pic_flag;
            &&& ue_at(rbsp, 0) == Some((s.first_mb_in_slice, ue_code(s.first_mb_in_slice).len()))
            &&& opening(rbsp) == Ok::<(nat, nat), HeaderFault>((s.slice_type, a.len()))
            &&& picture_fields(sps, rbsp, a.len()) == (field, (a + b).len())
            &&& bits(
                rbsp,
                a.len() + if sps.separate_colour_plane_flag {
                    2nat
                } else {
                    0nat
                },
                sps.log2_max_frame_num_minus4 as nat + 4,
            ) == s.frame_num
            &&& order_fields(sps, pps, nal_unit_type, field, rbsp, (a + b).len()) == Ok::<
                nat,
                HeaderFault,
            >((a + b + c).len())
            &&& nal_unit_type == 5 ==> ue_at(rbsp, (a + b).len()) is Some
        }),
{
    let (a, b, c) = (
        identifiers_code(s),
        picture_code(sps, s),
        order_code(sps, pps, nal_unit_type as nat, s),
    );
    lemma_carries_split(rbsp, 0, a + b, c);
    lemma_carries_split(rbsp, 0, a, b);
    lemma_identifiers(rbsp, s);
    lemma_picture(sps, rbsp, a.len(), s);
    lemma_order(sps, pps, nal_unit_type, rbsp, (a + b).len(), s);
}

/// The two most significant bits behind the first of a NAL header byte.
proof fn lemma_ref_idc(nal_header: u8)
    ensures
        (nal_header >> 5) & 3 == (nal_header / 32) % 4,
{
    assert((nal_header >> 5) & 3 == (nal_header / 32) % 4) by (bit_vector);
}

/// The bits in front of `slice_data()`: the NAL header byte and the slice
/// header, with the alignment to a byte that CABAC asks for.
pub open spec fn written_offset(cabac: bool, header_len: nat) -> nat {
    if cabac {
        8 + (header_len + 7) / 8 * 8
    } else {
        8 + header_len
    }
}

proof fn lemma_written_offset(cabac: bool, header_len: nat)
    ensures
        8 + data_start(cabac, header_len) == written_offset(cabac, header_len),
{
}

proof fn lemma_header_end(
    sps: H264Sps,
    pps: H264Pps,
    nal_unit_type: u8,
    nal_ref_idc: u8,
    rbsp: Seq<u8>,
    s: SliceSyntax,
)
    requires
        syntax_fits(sps, s),
        !writes_weight_table(pps, s),
        carries(rbsp, 0, header_code(sps, pps, nal_unit_type as nat, nal_ref_idc as nat, s)),
    ensures
        header_end(sps, pps, nal_unit_type, nal_ref_idc, rbsp) == Ok::<nat, HeaderFault>(
            header_code(sps, pps, nal_unit_type as nat, nal_ref_idc as nat, s).len(),
        ),
{
    let nut = nal_unit_type as nat;
    let abc = identifiers_code(s) + picture_code(sps, s) + order_code(sps, pps, nut, s);
    let (d, e) = (override_code(s), lists_code(s));
    let f = references_code(nut, nal_ref_idc as nat, s);
    let g = closing_code(pps, s);
    lemma_carries_split(rbsp, 0, abc + d + e + f, g);
    lemma_carries_split(rbsp, 0, abc + d + e, f);
    assert(abc + d + e =~= abc + (d + e));
    lemma_carries_split(rbsp, 0, abc, d + e);
    lemma_before_lists(sps, pps, nal_unit_type, rbsp, s);
    lemma_references_of_lists(rbsp, abc.len(), s);
    lemma_references(nal_unit_type, nal_ref_idc, rbsp, (abc + d + e).len(), s);
    lemma_closing(pps, rbsp, (abc + d + e + f).len(), s);
}

/// What is written is what is counted. A payload that begins with a slice
/// header, whatever its values and whatever follows it, has its slice data
/// right behind that header: at once under CAVLC, at the next byte under
/// CABAC. An offset that 16 bits cannot hold is an error that names it.
pub proof fn law_written_header_is_counted(
    sps: H264Sps,
    pps: H264Pps,
    nal_unit_type: u8,
    nal_header: u8,
    rbsp: Seq<u8>,
    s: SliceSyntax,
)
    requires
        syntax_fits(sps, s),
        !writes_weight_table(pps, s),
        carries(
            rbsp,
            0,
            header_code(sps, pps, nal_unit_type as nat, (nal_header / 32) as nat % 4, s),
        ),
    ensures
        ({
            let offset = written_offset(
                pps.entropy_coding_mode_flag,
                header_code(sps, pps, nal_unit_type as nat, (nal_header / 32) as nat % 4, s).len(),
            );
            payload_bit_offset(sps, pps, nal_unit_type, nal_header, rbsp) == if offset <= 65535 {
                Ok::<nat, HeaderFault>(offset)
            } else {
                Err::<nat, HeaderFault>(HeaderFault::Overflow(offset))
            }
        }),
{
    lemma_ref_idc(nal_header);
    let idc = (nal_header >> 5) & 3;
    let header = header_code(sps, pps, nal_unit_type as nat, idc as nat, s);
    lemma_header_end(sps, pps, nal_unit_type, idc, rbsp, s);
    lemma_written_offset(pps.entropy_coding_mode_flag, header.len());
}

/// The leading fields of a header are the values that were written, whatever
/// follows them.
pub proof fn law_written_fields_are_read(
    sps: H264Sps,
    pps: H264Pps,
    nal_unit_type: u8,
    rbsp: Seq<u8>,
    s: SliceSyntax,
)
    requires
        syntax_fits(sps, s),
        sps.code_widths_readable(),
        carries(
            rbsp,
            0,
            identifiers_code(s) + picture_code(sps, s) + order_code(
                sps,
                pps,
                nal_unit_type as nat,
                s,
            ),
        ),
    ensures
        leading_fields(sps, nal_unit_type, rbsp) matches Some(header) && {
            &&& header.first_mb_in_slice == s.first_mb_in_slice
            &&& header.slice_type == s.slice_type % 256
            &&& header.frame_num == s.frame_num
            &&& header.field_pic_flag == (!sps.frame_mbs_only_flag && s.field_pic_flag)
        },
{
    lemma_before_lists(sps, pps, nal_unit_type, rbsp, s);
    assert(s.frame_num <= 0xFFFF_FFFF) by {
        lemma2_to64();
        if sps.log2_max_frame_num_minus4 < 28 {
            lemma_pow2_strictly_increases(sps.log2_max_frame_num_minus4 as nat + 4, 32);
        }
    }
}

/// With picture order counts of type 2 (or a reserved one) a header carries no
/// order count, so the parameters that describe one make no difference.
pub proof fn law_absent_order_counts_are_not_read(
    sps: H264Sps,
    pps: H264Pps,
    nal_unit_type: u8,
    nal_header: u8,
    rbsp: Seq<u8>,
    always_zero: bool,
    lsb_width: u8,
    bottom: bool,
)
    requires
        sps.pic_order_cnt_type >= 2,
    ensures
        payload_bit_offset(sps, pps, nal_unit_type, nal_header, rbsp) == payload_bit_offset(
            H264Sps {
                delta_pic_order_always_zero_flag: always_zero,
                log2_max_pic_order_cnt_lsb_minus4: lsb_width,
                ..sps
            },
            H264Pps { bottom_field_pic_order_in_frame_present_flag: bottom, ..pps },
            nal_unit_type,
            nal_header,
            rbsp,
        ),
{
    let sps2 = H264Sps {
        delta_pic_order_always_zero_flag: always_zero,
        log2_max_pic_order_cnt_lsb_minus4: lsb_width,
        ..sps
    };
    let pps2 = H264Pps { bottom_field_pic_order_in_frame_present_flag: bottom, ..pps };
    let idc = (nal_header >> 5) & 3;
    if let Ok((slice_type, fields_pos)) = opening(rbsp) {
        let (field_pic, order_pos) = picture_fields(sps, rbsp, fields_pos);
        assert(picture_fields(sps2, rbsp, fields_pos) == (field_pic, order_pos));
        assert(order_fields(sps, pps, nal_unit_type, field_pic, rbsp, order_pos) == order_fields(
            sps2,
            pps2,
            nal_unit_type,
            field_pic,
            rbsp,
            order_pos,
        ));
        assert(has_weight_table(pps, slice_type) == has_weight_table(pps2, slice_type));
        if let Ok(lists_pos) = order_fields(sps, pps, nal_unit_type, field_pic, rbsp, order_pos) {
            if let Ok(marking_pos) = reference_fields(slice_type, rbsp, lists_pos) {
                if let Ok(pos) = marking_fields(nal_unit_type, idc, rbsp, marking_pos) {
                    assert(closing_fields(pps, slice_type, rbsp, pos) == closing_fields(
                        pps2,
                        slice_type,
                        rbsp,
                        pos,
                    ));
                }
            }
        }
    }
}

/// A slice with a prediction weight table has no offset; its header is read
/// that far.
pub proof fn law_weight_tables_are_refused(
    sps: H264Sps,
    pps: H264Pps,
    nal_unit_type: u8,
    nal_header: u8,
    rbsp: Seq<u8>,
    s: SliceSyntax,
)
    requires
        syntax_fits(sps, s),
        writes_weight_table(pps, s),
        carries(rbsp, 0, header_front_code(sps, pps, nal_unit_type as nat, s)),
    ensures
        payload_bit_offset(sps, pps, nal_unit_type, nal_header, rbsp) == Err::<nat, HeaderFault>(
            HeaderFault::WeightTable,
        ),
{
    let nut = nal_unit_type as nat;
    let abc = identifiers_code(s) + picture_code(sps, s) + order_code(sps, pps, nut, s);
    lemma_carries_split(rbsp, 0, abc, override_code(s) + lists_code(s));
    lemma_before_lists(sps, pps, nal_unit_type, rbsp, s);
    lemma_references_of_lists(rbsp, abc.len(), s);
}

proof fn lemma_bad_modification(
    second_list: bool,
    rbsp: Seq<u8>,
    pos: nat,
    steps: Seq<ListModification>,
    idc: nat,
)
    requires
        carries(rbsp, pos, modifications_code(steps) + ue_code(idc)),
        modifications_fit(steps),
        fits_ue(idc),
        idc > 3,
    ensures
        modifications(second_list, rbsp, pos) == Err::<nat, HeaderFault>(
            if second_list {
                HeaderFault::RefListL1(idc)
            } else {
                HeaderFault::RefListL0(idc)
            },
        ),
    decreases steps.len(),
{
    if steps.len() == 0 {
        lemma_carries_split(rbsp, pos, modifications_code(steps), ue_code(idc));
        law_ue_reads_back(rbsp, pos, idc);
    } else {
        let rest = steps.skip(1);
        let first = modification_code(steps[0]);
        let tail = modifications_code(rest) + ue_code(idc);
        assert(modifications_code(steps) + ue_code(idc) =~= first + tail);
        lemma_carries_split(rbsp, pos, first, tail);
        let (code, n) = match steps[0] {
            ListModification::Subtract(n) => (0nat, n),
            ListModification::Increase(n) => (1nat, n),
            ListModification::LongTerm(n) => (2nat, n),
        };
        assert(modification_fits(steps[0]));
        assert(first == ue_code(code) + ue_code(n));
        lemma_carries_split(rbsp, pos, ue_code(code), ue_code(n));
        law_ue_reads_back(rbsp, pos, code);
        law_ue_reads_back(rbsp, pos + ue_code(code).len(), n);
        assert(modifications_fit(rest)) by {
            assert(forall|i: int| 0 <= i < rest.len() ==> #[trigger] rest[i] == steps[i + 1]);
        }
        lemma_bad_modification(second_list, rbsp, pos + first.len(), rest, idc);
    }
}

/// A modification of list 0 that the standard does not know (7.4.3.1: above 3)
/// is refused, wherever in the loop it stands.
pub proof fn law_unknown_modifications_are_refused(
    sps: H264Sps,
    pps: H264Pps,
    nal_unit_type: u8,
    nal_header: u8,
    rbsp: Seq<u8>,
    s: SliceSyntax,
    steps: Seq<ListModification>,
    idc: nat,
)
    requires
        syntax_fits(sps, s),
        !(slice_kind(s.slice_type) is I) && !(slice_kind(s.slice_type) is SI),
        modifications_fit(steps),
        fits_ue(idc) && idc > 3,
        carries(
            rbsp,
            0,
            identifiers_code(s) + picture_code(sps, s) + order_code(
                sps,
                pps,
                nal_unit_type as nat,
                s,
            ) + override_code(s) + flag_code(true) + (modifications_code(steps) + ue_code(idc)),
        ),
    ensures
        payload_bit_offset(sps, pps, nal_unit_type, nal_header, rbsp) == Err::<nat, HeaderFault>(
            HeaderFault::RefListL0(idc),
        ),
{
    let nut = nal_unit_type as nat;
    let abc = identifiers_code(s) + picture_code(sps, s) + order_code(sps, pps, nut, s);
    let d = override_code(s);
    let tail = modifications_code(steps) + ue_code(idc);
    lemma_carries_split(rbsp, 0, abc + d + flag_code(true), tail);
    lemma_carries_split(rbsp, 0, abc + d, flag_code(true));
    lemma_carries_split(rbsp, 0, abc, d);
    assert(flag_code(true)[0]);
    lemma_before_lists(sps, pps, nal_unit_type, rbsp, s);
    lemma_override(rbsp, abc.len(), s);
    lemma_bad_modification(false, rbsp, (abc + d).len() + 1, steps, idc);
}

proof fn lemma_bad_marking(rbsp: Seq<u8>, pos: nat, steps: Seq<Marking>, operation: nat)
    requires
        carries(rbsp, pos, markings_code(steps) + ue_code(operation)),
        markings_fit(steps),
        fits_ue(operation),
        operation > 6,
    ensures
        marking_operations(rbsp, pos) == Err::<nat, HeaderFault>(HeaderFault::Marking(operation)),
    decreases steps.len(),
{
    if steps.len() == 0 {
        lemma_carries_split(rbsp, pos, markings_code(steps), ue_code(operation));
        law_ue_reads_back(rbsp, pos, operation);
    } else {
        let rest = steps.skip(1);
        let first = marking_code(steps[0]);
        let tail = markings_code(rest) + ue_code(operation);
        assert(markings_code(steps) + ue_code(operation) =~= first + tail);
        lemma_carries_split(rbsp, pos, first, tail);
        assert(marking_fits(steps[0]));
        assert(markings_fit(rest)) by {
            assert(forall|i: int| 0 <= i < rest.len() ==> #[trigger] rest[i] == steps[i + 1]);
        }
        lemma_bad_marking(rbsp, pos + first.len(), rest, operation);
        match steps[0] {
            Marking::UnmarkEverything => {
                law_ue_reads_back(rbsp, pos, 5);
            },
            Marking::AssignLongTerm(n, index) => {
                lemma_carries_split(rbsp, pos, ue_code(3) + ue_code(n), ue_code(index));
                lemma_carries_split(rbsp, pos, ue_code(3), ue_code(n));
                law_ue_reads_back(rbsp, pos, 3);
                law_ue_reads_back(rbsp, pos + ue_code(3).len(), n);
                law_ue_reads_back(rbsp, pos + (ue_code(3) + ue_code(n)).len(), index);
            },
            _ => {
                let (code, n) = match steps[0] {
                    Marking::UnmarkShortTerm(n) => (1nat, n),
                    Marking::UnmarkLongTerm(n) => (2nat, n),
                    Marking::LimitLongTerm(n) => (4nat, n),
                    Marking::MarkCurrentLongTerm(n) => (6nat, n),
                    _ => (0nat, 0nat),
                };
                assert(first == ue_code(code) + ue_code(n));
                lemma_carries_split(rbsp, pos, ue_code(code), ue_code(n));
                law_ue_reads_back(rbsp, pos, code);
                law_ue_reads_back(rbsp, pos + ue_code(code).len(), n);
            },
        }
    }
}

/// A marking that the standard does not know (7.4.3.3: above 6) is refused,
/// wherever in the loop it stands.
pub proof fn law_unknown_markings_are_refused(
    sps: H264Sps,
    pps: H264Pps,
    nal_unit_type: u8,
    nal_header: u8,
    rbsp: Seq<u8>,
    s: SliceSyntax,
    steps: Seq<Marking>,
    operation: nat,
)
    requires
        syntax_fits(sps, s),
        !writes_weight_table(pps, s),
        nal_unit_type != 5,
        (nal_header / 32) % 4 != 0,
        markings_fit(steps),
        fits_ue(operation) && operation > 6,
        carries(
            rbsp,
            0,
            header_front_code(sps, pps, nal_unit_type as nat, s) + flag_code(true) + (
            markings_code(steps) + ue_code(operation)),
        ),
    ensures
        payload_bit_offset(sps, pps, nal_unit_type, nal_header, rbsp) == Err::<nat, HeaderFault>(
            HeaderFault::Marking(operation),
        ),
{
    lemma_ref_idc(nal_header);
    let nut = nal_unit_type as nat;
    let abc = identifiers_code(s) + picture_code(sps, s) + order_code(sps, pps, nut, s);
    let de = override_code(s) + lists_code(s);
    let tail = markings_code(steps) + ue_code(operation);
    lemma_carries_split(rbsp, 0, abc + de + flag_code(true), tail);
    lemma_carries_split(rbsp, 0, abc + de, flag_code(true));
    lemma_carries_split(rbsp, 0, abc, de);
    assert(flag_code(true)[0]);
    lemma_before_lists(sps, pps, nal_unit_type, rbsp, s);
    lemma_references_of_lists(rbsp, abc.len(), s);
    lemma_bad_marking(rbsp, (abc + de).len() + 1, steps, operation);
}

/// A header whose first code has 32 leading zeros is unreadable.
pub proof fn law_long_zero_runs_are_unreadable(
    sps: H264Sps,
    pps: H264Pps,
    nal_unit_type: u8,
    nal_header: u8,
    rbsp: Seq<u8>,
)
    requires
        rbsp.len() >= 4,
        rbsp[0] == 0 && rbsp[1] == 0 && rbsp[2] == 0 && rbsp[3] == 0,
    ensures
        payload_bit_offset(sps, pps, nal_unit_type, nal_header, rbsp) == Err::<nat, HeaderFault>(
            HeaderFault::Golomb,
        ),
        leading_fields(sps, nal_unit_type, rbsp) is None,
{
    lemma_zeros_run_on(rbsp, 0);
    reveal(ue_at);
}

proof fn lemma_zeros_run_on(rbsp: Seq<u8>, pos: nat)
    requires
        rbsp.len() >= 4,
        rbsp[0] == 0 && rbsp[1] == 0 && rbsp[2] == 0 && rbsp[3] == 0,
        pos <= 32,
    ensures
        zero_run(rbsp, pos) >= 32 - pos,
    decreases 32 - pos,
{
    if pos < 32 {
        let shift = (7 - pos % 8) as u8;
        assert((0u8 >> shift) & 1 == 0) by (bit_vector);
        lemma_zeros_run_on(rbsp, pos + 1);
    }
}

/// A payload with its emulation-prevention bytes (7.4.1.1): behind two zeros
/// an `03` is put in front of every byte of at most 3. `zeros` is the number
/// of zeros that were just written.
pub open spec fn escaped(rbsp: Seq<u8>, zeros: nat) -> Seq<u8>
    decreases rbsp.len(),
{
    if rbsp.len() == 0 {
        seq![]
    } else if zeros == 2 && rbsp[0] <= 3 {
        seq![3u8, rbsp[0]] + escaped(
            rbsp.skip(1),
            if rbsp[0] == 0 {
                1
            } else {
                0
            },
        )
    } else {
        seq![rbsp[0]] + escaped(
            rbsp.skip(1),
            if rbsp[0] == 0 {
                zeros + 1
            } else {
                0
            },
        )
    }
}

/// Bytes that are all zero.
spec fn zero_bytes(n: nat) -> Seq<u8> {
    Seq::new(n, |i: int| 0u8)
}

proof fn lemma_unescaped_nonzero(first: u8, rest: Seq<u8>)
    requires
        first != 0,
    ensures
        unescaped(seq![first] + rest) == seq![first] + unescaped(rest),
{
    assert((seq![first] + rest).skip(1) =~= rest);
}

proof fn lemma_escape_round_trip(rbsp: Seq<u8>, zeros: nat)
    requires
        zeros <= 2,
    ensures
        unescaped(zero_bytes(zeros) + escaped(rbsp, zeros)) == zero_bytes(zeros) + rbsp,
    decreases rbsp.len(),
{
    let before = zero_bytes(zeros);
    let ebsp = before + escaped(rbsp, zeros);
    reveal_with_fuel(unescaped, 4);
    if rbsp.len() == 0 {
        assert(ebsp =~= before);
        assert(before + rbsp =~= before);
        assert(before.len() > 0 ==> before.skip(1) =~= zero_bytes((zeros - 1) as nat));
        assert(before.len() > 1 ==> before.skip(1).skip(1) =~= zero_bytes((zeros - 2) as nat));
        assert(unescaped(before) =~= before);
    } else {
        let first = rbsp[0];
        let rest = rbsp.skip(1);
        assert(rbsp =~= seq![first] + rest);
        if zeros == 2 && first <= 3 {
            let after: nat = if first == 0 {
                1
            } else {
                0
            };
            let tail = escaped(rest, after);
            lemma_escape_round_trip(rest, after);
            assert(ebsp =~= seq![0u8, 0u8, 3u8, first] + tail);
            assert(ebsp.skip(3) =~= seq![first] + tail);
            if first == 0 {
                assert(seq![first] + tail =~= zero_bytes(1) + tail);
                assert(zero_bytes(1) + rest =~= rbsp);
            } else {
                lemma_unescaped_nonzero(first, tail);
                assert(zero_bytes(0) + tail =~= tail);
                assert(zero_bytes(0) + rest =~= rest);
            }
            assert(unescaped(ebsp.skip(3)) == rbsp);
            assert(before + rbsp =~= seq![0u8, 0u8] + rbsp);
        } else if first == 0 {
            lemma_escape_round_trip(rest, zeros + 1);
            assert(ebsp =~= zero_bytes(zeros + 1) + escaped(rest, zeros + 1));
            assert(before + rbsp =~= zero_bytes(zeros + 1) + rest);
        } else {
            let tail = escaped(rest, 0);
            let framed = seq![first] + tail;
            lemma_escape_round_trip(rest, 0);
            assert(zero_bytes(0) + tail =~= tail);
            assert(zero_bytes(0) + rest =~= rest);
            lemma_unescaped_nonzero(first, tail);
            assert(unescaped(framed) =~= rbsp);
            if zeros == 0 {
                assert(ebsp =~= framed);
                assert(before + rbsp =~= rbsp);
            } else if zeros == 1 {
                assert(ebsp =~= seq![0u8] + framed);
                assert(ebsp.skip(1) =~= framed);
                assert(before + rbsp =~= seq![0u8] + rbsp);
            } else {
                assert(ebsp =~= seq![0u8, 0u8] + framed);
                assert(ebsp.skip(1) =~= seq![0u8] + framed);
                assert(ebsp.skip(1).skip(1) =~= framed);
                assert(before + rbsp =~= seq![0u8] + (seq![0u8] + rbsp));
            }
        }
    }
}

/// Removing emulation-prevention bytes undoes putting them in.
pub proof fn law_escaping_is_undone(rbsp: Seq<u8>)
    ensures
        unescaped(escaped(rbsp, 0)) == rbsp,
{
    lemma_escape_round_trip(rbsp, 0);
    assert(zero_bytes(0) + escaped(rbsp, 0) =~= escaped(rbsp, 0));
    assert(zero_bytes(0) + rbsp =~= rbsp);
}

/// A NAL unit as it is written: its header byte and its escaped payload.
pub open spec fn nal_code(nal_header: u8, rbsp: Seq<u8>) -> Seq<u8> {
    seq![nal_header] + escaped(rbsp, 0)
}

/// The start codes of Annex B.
pub open spec fn start_code_bytes(long: bool) -> Seq<u8> {
    if long {
        seq![0u8, 0u8, 0u8, 1u8]
    } else {
        seq![0u8, 0u8, 1u8]
    }
}

/// A NAL unit lies behind the start code that it is written with.
proof fn lemma_framed(long: bool, nal_header: u8, rbsp: Seq<u8>)
    ensures
        ({
            let access_unit = start_code_bytes(long) + nal_code(nal_header, rbsp);
            let nal = access_unit.skip(start_code(access_unit) as int);
            &&& start_code(access_unit) == start_code_bytes(long).len()
            &&& nal.len() > 0
            &&& nal[0] == nal_header
            &&& unescaped(nal.skip(1)) == rbsp
        }),
{
    let start = start_code_bytes(long);
    let nal = nal_code(nal_header, rbsp);
    let access_unit = start + nal;
    law_escaping_is_undone(rbsp);
    assert(access_unit.subrange(0, start.len() as int) =~= start);
    if !long {
        assert(!seq![0u8, 0u8, 0u8, 1u8].is_prefix_of(access_unit)) by {
            if seq![0u8, 0u8, 0u8, 1u8].is_prefix_of(access_unit) {
                assert(access_unit.subrange(0, 4)[2] == seq![0u8, 0u8, 0u8, 1u8][2]);
                assert(access_unit[2] == 1);
            }
        }
    }
    assert(access_unit.skip(start.len() as int) =~= nal);
    assert(nal.skip(1) =~= escaped(rbsp, 0));
}

/// The slice data of a slice that is written behind a start code of either
/// length lies where its header ends, however much the payload is escaped.
pub proof fn law_written_slice_is_located(
    sps: H264Sps,
    pps: H264Pps,
    nal_unit_type: u8,
    nal_header: u8,
    rbsp: Seq<u8>,
    s: SliceSyntax,
    long_start_code: bool,
)
    requires
        syntax_fits(sps, s),
        !writes_weight_table(pps, s),
        carries(
            rbsp,
            0,
            header_code(sps, pps, nal_unit_type as nat, (nal_header / 32) as nat % 4, s),
        ),
    ensures
        ({
            let access_unit = start_code_bytes(long_start_code) + nal_code(nal_header, rbsp);
            let offset = written_offset(
                pps.entropy_coding_mode_flag,
                header_code(sps, pps, nal_unit_type as nat, (nal_header / 32) as nat % 4, s).len(),
            );
            slice_data_bit_offset(sps, pps, nal_unit_type, access_unit) == if offset <= 65535 {
                Ok::<nat, HeaderFault>(offset)
            } else {
                Err::<nat, HeaderFault>(HeaderFault::Overflow(offset))
            }
        }),
{
    lemma_framed(long_start_code, nal_header, rbsp);
    law_written_header_is_counted(sps, pps, nal_unit_type, nal_header, rbsp, s);
}

/// An access unit that ends with its start code holds no slice.
pub proof fn law_empty_slices_are_refused(
    sps: H264Sps,
    pps: H264Pps,
    nal_unit_type: u8,
    access_unit: Seq<u8>,
)
    requires
        access_unit == seq![0u8, 0u8, 0u8, 1u8] || access_unit == seq![0u8, 0u8, 1u8]
            || access_unit.len() == 0,
    ensures
        slice_data_bit_offset(sps, pps, nal_unit_type, access_unit) == Err::<nat, HeaderFault>(
            HeaderFault::EmptyNal,
        ),
{
    if access_unit.len() == 4 {
        assert(access_unit.subrange(0, 4) =~= access_unit);
    }
    if access_unit.len() == 3 {
        assert(access_unit.subrange(0, 3) =~= access_unit);
    }
}

/// A slice of either kind that is written behind both parameter sets becomes a
/// task: decoded against these sets, with the fields that were written, and
/// framed by a start code.
pub proof fn law_written_slice_becomes_a_task(
    sps: H264Sps,
    pps: H264Pps,
    nal_header: u8,
    rbsp: Seq<u8>,
    s: SliceSyntax,
)
    requires
        syntax_fits(sps, s),
        sps.code_widths_readable(),
        nal_header % 32 == 1 || nal_header % 32 == 5,
        carries(
            rbsp,
            0,
            identifiers_code(s) + picture_code(sps, s) + order_code(
                sps,
                pps,
                nal_header as nat % 32,
                s,
            ),
        ),
    ensures
        nal_step(
            CacheView { sps: Some(sps), pps: Some(pps) },
            nal_code(nal_header, rbsp),
        ) matches NalStep::Slice(task) && {
            &&& task.sps == sps
            &&& task.pps == pps
            &&& task.nal_unit_type == nal_header % 32
            &&& task.header.first_mb_in_slice == s.first_mb_in_slice
            &&& task.header.slice_type == s.slice_type % 256
            &&& task.header.frame_num == s.frame_num
            &&& task.header.field_pic_flag == (!sps.frame_mbs_only_flag && s.field_pic_flag)
            &&& task.access_unit == seq![0u8, 0u8, 0u8, 1u8] + nal_code(nal_header, rbsp)
        },
{
    let nal = nal_code(nal_header, rbsp);
    assert(nal_header & 0x1f == nal_header % 32) by (bit_vector);
    law_escaping_is_undone(rbsp);
    assert(nal.skip(1) =~= escaped(rbsp, 0));
    law_written_fields_are_read(sps, pps, nal_header % 32, rbsp, s);
}

/// The same of list 1, which slices of type B have.
pub proof fn law_unknown_modifications_of_list_1_are_refused(
    sps: H264Sps,
    pps: H264Pps,
    nal_unit_type: u8,
    nal_header: u8,
    rbsp: Seq<u8>,
    s: SliceSyntax,
    steps: Seq<ListModification>,
    idc: nat,
)
    requires
        syntax_fits(sps, s),
        slice_kind(s.slice_type) is B,
        modifications_fit(steps),
        fits_ue(idc) && idc > 3,
        carries(
            rbsp,
            0,
            identifiers_code(s) + picture_code(sps, s) + order_code(
                sps,
                pps,
                nal_unit_type as nat,
                s,
            ) + override_code(s) + list_code(s.modifications_l0) + flag_code(true) + (
            modifications_code(steps) + ue_code(idc)),
        ),
    ensures
        payload_bit_offset(sps, pps, nal_unit_type, nal_header, rbsp) == Err::<nat, HeaderFault>(
            HeaderFault::RefListL1(idc),
        ),
{
    let nut = nal_unit_type as nat;
    let abc = identifiers_code(s) + picture_code(sps, s) + order_code(sps, pps, nut, s);
    let (d, l0) = (override_code(s), list_code(s.modifications_l0));
    let tail = modifications_code(steps) + ue_code(idc);
    lemma_carries_split(rbsp, 0, abc + d + l0 + flag_code(true), tail);
    lemma_carries_split(rbsp, 0, abc + d + l0, flag_code(true));
    lemma_carries_split(rbsp, 0, abc + d, l0);
    lemma_carries_split(rbsp, 0, abc, d);
    assert(flag_code(true)[0]);
    lemma_before_lists(sps, pps, nal_unit_type, rbsp, s);
    lemma_override(rbsp, abc.len(), s);
    lemma_list(false, rbsp, (abc + d).len(), s.modifications_l0);
    lemma_bad_modification(true, rbsp, (abc + d + l0).len() + 1, steps, idc);
}

proof fn lemma_open_modifications(
    second_list: bool,
    rbsp: Seq<u8>,
    pos: nat,
    steps: Seq<ListModification>,
)
    requires
        carries(rbsp, pos, modifications_code(steps)),
        modifications_fit(steps),
        pos + modifications_code(steps).len() >= rbsp.len() * 8,
    ensures
        modifications(second_list, rbsp, pos) == Err::<nat, HeaderFault>(
            if second_list {
                HeaderFault::OpenRefListL1
            } else {
                HeaderFault::OpenRefListL0
            },
        ),
    decreases steps.len(),
{
    if steps.len() > 0 {
        let rest = steps.skip(1);
        let first = modification_code(steps[0]);
        lemma_carries_split(rbsp, pos, first, modifications_code(rest));
        let (code, n) = match steps[0] {
            ListModification::Subtract(n) => (0nat, n),
            ListModification::Increase(n) => (1nat, n),
            ListModification::LongTerm(n) => (2nat, n),
        };
        assert(modification_fits(steps[0]));
        assert(first == ue_code(code) + ue_code(n));
        lemma_carries_split(rbsp, pos, ue_code(code), ue_code(n));
        law_ue_reads_back(rbsp, pos, code);
        law_ue_reads_back(rbsp, pos + ue_code(code).len(), n);
        assert(modifications_fit(rest)) by {
            assert(forall|i: int| 0 <= i < rest.len() ==> #[trigger] rest[i] == steps[i + 1]);
        }
        lemma_open_modifications(second_list, rbsp, pos + first.len(), rest);
    }
}

/// A payload that ends inside the modifications of list 0 is refused.
pub proof fn law_open_modifications_are_refused(
    sps: H264Sps,
    pps: H264Pps,
    nal_unit_type: u8,
    nal_header: u8,
    rbsp: Seq<u8>,
    s: SliceSyntax,
    steps: Seq<ListModification>,
)
    requires
        syntax_fits(sps, s),
        !(slice_kind(s.slice_type) is I) && !(slice_kind(s.slice_type) is SI),
        modifications_fit(steps),
        ({
            let code = identifiers_code(s) + picture_code(sps, s) + order_code(
                    sps,
                    pps,
                    nal_unit_type as nat,
                    s,
                ) + override_code(s) + flag_code(true) + modifications_code(steps);
            carries(rbsp, 0, code) && code.len() >= rbsp.len() * 8
        }),
    ensures
        payload_bit_offset(sps, pps, nal_unit_type, nal_header, rbsp) == Err::<nat, HeaderFault>(
            HeaderFault::OpenRefListL0,
        ),
{
    let nut = nal_unit_type as nat;
    let abc = identifiers_code(s) + picture_code(sps, s) + order_code(sps, pps, nut, s);
    let d = override_code(s);
    lemma_carries_split(rbsp, 0, abc + d + flag_code(true), modifications_code(steps));
    lemma_carries_split(rbsp, 0, abc + d, flag_code(true));
    lemma_carries_split(rbsp, 0, abc, d);
    assert(flag_code(true)[0]);
    lemma_before_lists(sps, pps, nal_unit_type, rbsp, s);
    lemma_override(rbsp, abc.len(), s);
    lemma_open_modifications(false, rbsp, (abc + d).len() + 1, steps);
}

/// A payload that ends inside the modifications of list 1 is refused.
pub proof fn law_open_modifications_of_list_1_are_refused(
    sps: H264Sps,
    pps: H264Pps,
    nal_unit_type: u8,
    nal_header: u8,
    rbsp: Seq<u8>,
    s: SliceSyntax,
    steps: Seq<ListModification>,
)
    requires
        syntax_fits(sps, s),
        slice_kind(s.slice_type) is B,
        modifications_fit(steps),
        ({
            let code = identifiers_code(s) + picture_code(sps, s) + order_code(
                    sps,
                    pps,
                    nal_unit_type as nat,
                    s,
                ) + override_code(s) + list_code(s.modifications_l0) + flag_code(true) + modifications_code(steps);
            carries(rbsp, 0, code) && code.len() >= rbsp.len() * 8
        }),
    ensures
        payload_bit_offset(sps, pps, nal_unit_type, nal_header, rbsp) == Err::<nat, HeaderFault>(
            HeaderFault::OpenRefListL1,
        ),
{
    let nut = nal_unit_type as nat;
    let abc = identifiers_code(s) + picture_code(sps, s) + order_code(sps, pps, nut, s);
    let (d, l0) = (override_code(s), list_code(s.modifications_l0));
    lemma_carries_split(rbsp, 0, abc + d + l0 + flag_code(true), modifications_code(steps));
    lemma_carries_split(rbsp, 0, abc + d + l0, flag_code(true));
    lemma_carries_split(rbsp, 0, abc + d, l0);
    lemma_carries_split(rbsp, 0, abc, d);
    assert(flag_code(true)[0]);
    lemma_before_lists(sps, pps, nal_unit_type, rbsp, s);
    lemma_override(rbsp, abc.len(), s);
    lemma_list(false, rbsp, (abc + d).len(), s.modifications_l0);
    lemma_open_modifications(true, rbsp, (abc + d + l0).len() + 1, steps);
}

/// What the walk over a written slice gives its caller: the length of the
/// header, with the NAL header byte, rounded up to whole bytes under CABAC;
/// or, where 16 bits cannot hold it, an error that names it.
pub proof fn law_written_slices_are_counted_for_the_caller(
    sps: &H264Sps,
    pps: &H264Pps,
    nal_unit_type: u8,
    nal_header: u8,
    rbsp: Seq<u8>,
    s: SliceSyntax,
    long_start_code: bool,
    access_unit: &[u8],
    offset: Result<u16, VaError>,
)
    requires
        syntax_fits(*sps, s),
        !writes_weight_table(*pps, s),
        carries(
            rbsp,
            0,
            header_code(*sps, *pps, nal_unit_type as nat, (nal_header / 32) as nat % 4, s),
        ),
        access_unit@ == start_code_bytes(long_start_code) + nal_code(nal_header, rbsp),
        call_ensures(
            compute_slice_data_bit_offset,
            (sps, pps, nal_unit_type, access_unit),
            offset,
        ),
    ensures
        ({
            let len = header_code(
                *sps,
                *pps,
                nal_unit_type as nat,
                (nal_header / 32) as nat % 4,
                s,
            ).len();
            let bits: nat = if pps.entropy_coding_mode_flag {
                8 + (len + 7) / 8 * 8
            } else {
                8 + len
            };
            &&& bits <= 65535 ==> offset == Ok::<u16, VaError>(bits as u16)
            &&& bits > 65535 ==> (offset matches Err(error) && error@ == (VaErrorView::Va {
                status: 0,
                message: "slice_data_bit_offset overflow: "@ + decimal(bits as int),
            }))
        }),
{
    law_written_slice_is_located(
        *sps,
        *pps,
        nal_unit_type,
        nal_header,
        rbsp,
        s,
        long_start_code,
    );
}

/// The texts of the faults of a slice header.
pub proof fn law_fault_texts(n: nat)
    ensures
        HeaderFault::EmptyNal.error() == (VaErrorView::Va {
            status: 0,
            message: "slice_data_bit_offset: empty slice NAL"@,
        }),
        HeaderFault::Golomb.error() == (VaErrorView::Va {
            status: 0,
            message: "bitstream parser: "@
                + "invalid bitstream data: ue(v): 32 or more leading zero bits"@,
        }),
        HeaderFault::RefListL0(n).error() == (VaErrorView::Va {
            status: 0,
            message: "ref_pic_list_modification_l0: invalid modification_of_pic_nums_idc="@
                + decimal(n as int),
        }),
        HeaderFault::RefListL1(n).error() == (VaErrorView::Va {
            status: 0,
            message: "ref_pic_list_modification_l1: invalid m="@ + decimal(n as int),
        }),
        HeaderFault::WeightTable.error() == (VaErrorView::Va {
            status: 0,
            message:
                "compute_slice_data_bit_offset: pred_weight_table not implemented (fixture should not need it)"@,
        }),
        HeaderFault::Marking(n).error() == (VaErrorView::Va {
            status: 0,
            message: "dec_ref_pic_marking: invalid mm="@ + decimal(n as int),
        }),
{
}

/// 32 clear bits, which no code that can be read begins with.
pub open spec fn clear_bits() -> Seq<bool> {
    Seq::new(32, |i: int| false)
}

proof fn lemma_clear_run(rbsp: Seq<u8>, pos: nat, n: nat)
    requires
        n <= 32,
        carries(rbsp, pos, clear_bits()),
    ensures
        zero_run(rbsp, (pos + 32 - n) as nat) >= n,
    decreases n,
{
    if n > 0 {
        let at = (pos + 32 - n) as nat;
        assert(bit(rbsp, (pos + (32 - n)) as nat) == clear_bits()[32 - n]);
        lemma_clear_run(rbsp, pos, (n - 1) as nat);
        assert(zero_run(rbsp, at) == 1 + zero_run(rbsp, at + 1));
    }
}

proof fn lemma_clear_bits(rbsp: Seq<u8>, pos: nat)
    requires
        carries(rbsp, pos, clear_bits()),
    ensures
        ue_at(rbsp, pos) is None,
{
    lemma_clear_run(rbsp, pos, 32);
    reveal(ue_at);
}

/// A header is unreadable where one of its first three codes is, or the
/// picture number of an IDR slice (type 5); the fields of the slice are then
/// unknown too.
pub proof fn law_unreadable_identifiers_are_refused(
    sps: H264Sps,
    pps: H264Pps,
    nal_unit_type: u8,
    nal_header: u8,
    rbsp: Seq<u8>,
    s: SliceSyntax,
)
    requires
        syntax_fits(sps, s),
        carries(rbsp, 0, clear_bits()) || carries(
            rbsp,
            0,
            ue_code(s.first_mb_in_slice) + clear_bits(),
        ) || carries(
            rbsp,
            0,
            ue_code(s.first_mb_in_slice) + ue_code(s.slice_type) + clear_bits(),
        ) || (nal_unit_type == 5 && carries(
            rbsp,
            0,
            identifiers_code(s) + picture_code(sps, s) + clear_bits(),
        )),
    ensures
        payload_bit_offset(sps, pps, nal_unit_type, nal_header, rbsp) == Err::<nat, HeaderFault>(
            HeaderFault::Golomb,
        ),
        leading_fields(sps, nal_unit_type, rbsp) is None,
{
    let (m, t) = (ue_code(s.first_mb_in_slice), ue_code(s.slice_type));
    let (a, b) = (identifiers_code(s), picture_code(sps, s));
    if carries(rbsp, 0, clear_bits()) {
        lemma_clear_bits(rbsp, 0);
    } else if carries(rbsp, 0, m + clear_bits()) {
        lemma_carries_split(rbsp, 0, m, clear_bits());
        law_ue_reads_back(rbsp, 0, s.first_mb_in_slice);
        lemma_clear_bits(rbsp, m.len());
    } else if carries(rbsp, 0, m + t + clear_bits()) {
        lemma_carries_split(rbsp, 0, m + t, clear_bits());
        lemma_carries_split(rbsp, 0, m, t);
        law_ue_reads_back(rbsp, 0, s.first_mb_in_slice);
        law_ue_reads_back(rbsp, m.len(), s.slice_type);
        lemma_clear_bits(rbsp, (m + t).len());
    } else {
        lemma_carries_split(rbsp, 0, a + b, clear_bits());
        lemma_carries_split(rbsp, 0, a, b);
        lemma_identifiers(rbsp, s);
        lemma_picture(sps, rbsp, a.len(), s);
        lemma_clear_bits(rbsp, (a + b).len());
    }
}

/// A header is unreadable where the count of redundant pictures is, which ends
/// the order counts where the picture parameter set announces it.
pub proof fn law_unreadable_redundant_counts_are_refused(
    sps: H264Sps,
    pps: H264Pps,
    nal_unit_type: u8,
    nal_header: u8,
    rbsp: Seq<u8>,
    s: SliceSyntax,
)
    requires
        syntax_fits(sps, s),
        pps.redundant_pic_cnt_present_flag,
        carries(
            rbsp,
            0,
            identifiers_code(s) + picture_code(sps, s) + order_code(
                sps,
                H264Pps { redundant_pic_cnt_present_flag: false, ..pps },
                nal_unit_type as nat,
                s,
            ) + clear_bits(),
        ),
    ensures
        payload_bit_offset(sps, pps, nal_unit_type, nal_header, rbsp) == Err::<nat, HeaderFault>(
            HeaderFault::Golomb,
        ),
{
    let plain = H264Pps { redundant_pic_cnt_present_flag: false, ..pps };
    let abc = identifiers_code(s) + picture_code(sps, s) + order_code(
        sps,
        plain,
        nal_unit_type as nat,
        s,
    );
    lemma_carries_split(rbsp, 0, abc, clear_bits());
    lemma_before_lists(sps, plain, nal_unit_type, rbsp, s);
    lemma_clear_bits(rbsp, abc.len());
}

/// A header is unreadable where a number of references that it overrides is.
pub proof fn law_unreadable_overrides_are_refused(
    sps: H264Sps,
    pps: H264Pps,
    nal_unit_type: u8,
    nal_header: u8,
    rbsp: Seq<u8>,
    s: SliceSyntax,
)
    requires
        syntax_fits(sps, s),
        slice_kind(s.slice_type) is P || slice_kind(s.slice_type) is SP || slice_kind(
            s.slice_type,
        ) is B,
        carries(
            rbsp,
            0,
            identifiers_code(s) + picture_code(sps, s) + order_code(
                sps,
                pps,
                nal_unit_type as nat,
                s,
            ) + given(
                slice_kind(s.slice_type) is B,
                flag_code(s.direct_spatial_mv_pred_flag),
            ) + flag_code(true) + clear_bits(),
        ),
    ensures
        payload_bit_offset(sps, pps, nal_unit_type, nal_header, rbsp) == Err::<nat, HeaderFault>(
            HeaderFault::Golomb,
        ),
{
    let nut = nal_unit_type as nat;
    let abc = identifiers_code(s) + picture_code(sps, s) + order_code(sps, pps, nut, s);
    let direct = given(
        slice_kind(s.slice_type) is B,
        flag_code(s.direct_spatial_mv_pred_flag),
    );
    lemma_carries_split(rbsp, 0, abc + direct + flag_code(true), clear_bits());
    lemma_carries_split(rbsp, 0, abc + direct, flag_code(true));
    lemma_carries_split(rbsp, 0, abc, direct);
    assert(flag_code(true)[0]);
    lemma_before_lists(sps, pps, nal_unit_type, rbsp, s);
    lemma_clear_bits(rbsp, (abc + direct).len() + 1);
}

/// What stands before the closing codes of a header.
spec fn closing_front(
    sps: H264Sps,
    pps: H264Pps,
    nal_unit_type: nat,
    nal_ref_idc: nat,
    s: SliceSyntax,
) -> Seq<bool> {
    identifiers_code(s) + picture_code(sps, s) + order_code(sps, pps, nal_unit_type, s) + (
    override_code(s) + lists_code(s)) + references_code(nal_unit_type, nal_ref_idc, s)
}

proof fn lemma_before_closing(
    sps: H264Sps,
    pps: H264Pps,
    nal_unit_type: u8,
    idc: u8,
    rbsp: Seq<u8>,
    s: SliceSyntax,
)
    requires
        syntax_fits(sps, s),
        !writes_weight_table(pps, s),
        carries(rbsp, 0, closing_front(sps, pps, nal_unit_type as nat, idc as nat, s)),
    ensures
        header_end(sps, pps, nal_unit_type, idc, rbsp) == closing_fields(
            pps,
            s.slice_type,
            rbsp,
            closing_front(sps, pps, nal_unit_type as nat, idc as nat, s).len(),
        ),
{
    let nut = nal_unit_type as nat;
    let abc = identifiers_code(s) + picture_code(sps, s) + order_code(sps, pps, nut, s);
    let de = override_code(s) + lists_code(s);
    let f = references_code(nut, idc as nat, s);
    lemma_carries_split(rbsp, 0, abc + de, f);
    lemma_carries_split(rbsp, 0, abc, de);
    lemma_before_lists(sps, pps, nal_unit_type, rbsp, s);
    lemma_references_of_lists(rbsp, abc.len(), s);
    lemma_references(nal_unit_type, idc, rbsp, (abc + de).len(), s);
}

proof fn lemma_unreadable_closing(sps: H264Sps, pps: H264Pps, rbsp: Seq<u8>, pos: nat, s: SliceSyntax)
    requires
        syntax_fits(sps, s),
        ({
            let kind = slice_kind(s.slice_type);
            ||| carries(rbsp, pos, clear_bits())
            ||| pps.entropy_coding_mode_flag && !(kind is I) && !(kind is SI) && carries(
                rbsp,
                pos,
                ue_code(s.cabac_init_idc) + clear_bits(),
            )
            ||| pps.deblocking_filter_control_present_flag && carries(
                rbsp,
                pos,
                closing_code(
                    H264Pps { deblocking_filter_control_present_flag: false, ..pps },
                    s,
                ) + clear_bits(),
            )
        }),
    ensures
        closing_fields(pps, s.slice_type, rbsp, pos) == Err::<nat, HeaderFault>(
            HeaderFault::Golomb,
        ),
{
    let first = ue_code(s.cabac_init_idc);
    let plain = H264Pps { deblocking_filter_control_present_flag: false, ..pps };
    let closing = closing_code(plain, s);
    if carries(rbsp, pos, clear_bits()) {
        lemma_clear_bits(rbsp, pos);
    } else if pps.deblocking_filter_control_present_flag && carries(
        rbsp,
        pos,
        closing + clear_bits(),
    ) {
        lemma_carries_split(rbsp, pos, closing, clear_bits());
        lemma_closing(plain, rbsp, pos, s);
        lemma_clear_bits(rbsp, pos + closing.len());
    } else {
        lemma_carries_split(rbsp, pos, first, clear_bits());
        law_ue_reads_back(rbsp, pos, s.cabac_init_idc);
        lemma_clear_bits(rbsp, pos + first.len());
    }
}

/// A header is unreadable where the first of its closing codes is, the
/// quantiser delta behind the CABAC table, or the deblocking mode where the
/// picture parameter set announces it.
pub proof fn law_unreadable_closing_codes_are_refused(
    sps: H264Sps,
    pps: H264Pps,
    nal_unit_type: u8,
    nal_header: u8,
    rbsp: Seq<u8>,
    s: SliceSyntax,
)
    requires
        syntax_fits(sps, s),
        !writes_weight_table(pps, s),
        ({
            let front = identifiers_code(s) + picture_code(sps, s) + order_code(
                sps,
                pps,
                nal_unit_type as nat,
                s,
            ) + (override_code(s) + lists_code(s)) + references_code(
                nal_unit_type as nat,
                (nal_header / 32) as nat % 4,
                s,
            );
            let kind = slice_kind(s.slice_type);
            ||| carries(rbsp, 0, front + clear_bits())
            ||| pps.entropy_coding_mode_flag && !(kind is I) && !(kind is SI) && carries(
                rbsp,
                0,
                front + (ue_code(s.cabac_init_idc) + clear_bits()),
            )
            ||| pps.deblocking_filter_control_present_flag && carries(
                rbsp,
                0,
                front + (closing_code(
                    H264Pps { deblocking_filter_control_present_flag: false, ..pps },
                    s,
                ) + clear_bits()),
            )
        }),
    ensures
        payload_bit_offset(sps, pps, nal_unit_type, nal_header, rbsp) == Err::<nat, HeaderFault>(
            HeaderFault::Golomb,
        ),
{
    lemma_ref_idc(nal_header);
    let idc = (nal_header >> 5) & 3;
    let front = closing_front(sps, pps, nal_unit_type as nat, idc as nat, s);
    let first = ue_code(s.cabac_init_idc);
    let plain = H264Pps { deblocking_filter_control_present_flag: false, ..pps };
    let closing = closing_code(plain, s);
    if carries(rbsp, 0, front + clear_bits()) {
        lemma_carries_split(rbsp, 0, front, clear_bits());
    } else if carries(rbsp, 0, front + (closing + clear_bits())) {
        lemma_carries_split(rbsp, 0, front, closing + clear_bits());
    } else {
        lemma_carries_split(rbsp, 0, front, first + clear_bits());
    }
    lemma_before_closing(sps, pps, nal_unit_type, idc, rbsp, s);
    if pps.entropy_coding_mode_flag && carries(rbsp, 0, front + (first + clear_bits())) {
        lemma_carries_split(rbsp, 0, front, first + clear_bits());
    }
    lemma_unreadable_closing(sps, pps, rbsp, front.len(), s);
}

/// The texts of headers that end too soon or are too long.
pub proof fn law_length_fault_texts(n: nat)
    ensures
        HeaderFault::OpenRefListL0.error() == (VaErrorView::Va {
            status: 0,
            message:
                "ref_pic_list_modification_l0: header ends before modification_of_pic_nums_idc=3"@,
        }),
        HeaderFault::OpenRefListL1.error() == (VaErrorView::Va {
            status: 0,
            message:
                "ref_pic_list_modification_l1: header ends before modification_of_pic_nums_idc=3"@,
        }),
        HeaderFault::Overflow(n).error() == (VaErrorView::Va {
            status: 0,
            message: "slice_data_bit_offset overflow: "@ + decimal(n as int),
        }),
{
}

/// A start code is four bytes long (0 0 0 1), three (0 0 1), or absent.
pub proof fn law_start_codes_are_measured(data: &[u8], len: usize)
    requires
        call_ensures(start_code_len, (data,), len),
    ensures
        len == 4 <==> data@.len() >= 4 && data@[0] == 0 && data@[1] == 0 && data@[2] == 0
            && data@[3] == 1,
        len == 3 <==> data@.len() >= 3 && data@[0] == 0 && data@[1] == 0 && data@[2] == 1,
        len == 0 || len == 3 || len == 4,
{
    let bytes = data@;
    if bytes.len() >= 4 {
        assert(bytes.subrange(0, 4) =~= seq![bytes[0], bytes[1], bytes[2], bytes[3]]);
    }
    if bytes.len() >= 3 {
        assert(bytes.subrange(0, 3) =~= seq![bytes[0], bytes[1], bytes[2]]);
    }
}

proof fn lemma_open_markings(rbsp: Seq<u8>, pos: nat, steps: Seq<Marking>)
    requires
        carries(rbsp, pos, markings_code(steps)),
        markings_fit(steps),
        pos + markings_code(steps).len() >= rbsp.len() * 8,
    ensures
        marking_operations(rbsp, pos) == Ok::<nat, HeaderFault>(pos + markings_code(steps).len()),
    decreases steps.len(),
{
    if steps.len() > 0 {
        let rest = steps.skip(1);
        let first = marking_code(steps[0]);
        lemma_carries_split(rbsp, pos, first, markings_code(rest));
        assert(marking_fits(steps[0]));
        assert(markings_fit(rest)) by {
            assert(forall|i: int| 0 <= i < rest.len() ==> #[trigger] rest[i] == steps[i + 1]);
        }
        lemma_open_markings(rbsp, pos + first.len(), rest);
        match steps[0] {
            Marking::UnmarkEverything => {
                law_ue_reads_back(rbsp, pos, 5);
            },
            Marking::AssignLongTerm(n, index) => {
                lemma_carries_split(rbsp, pos, ue_code(3) + ue_code(n), ue_code(index));
                lemma_carries_split(rbsp, pos, ue_code(3), ue_code(n));
                law_ue_reads_back(rbsp, pos, 3);
                law_ue_reads_back(rbsp, pos + ue_code(3).len(), n);
                law_ue_reads_back(rbsp, pos + (ue_code(3) + ue_code(n)).len(), index);
            },
            _ => {
                let (code, n) = match steps[0] {
                    Marking::UnmarkShortTerm(n) => (1nat, n),
                    Marking::UnmarkLongTerm(n) => (2nat, n),
                    Marking::LimitLongTerm(n) => (4nat, n),
                    Marking::MarkCurrentLongTerm(n) => (6nat, n),
                    _ => (0nat, 0nat),
                };
                assert(first == ue_code(code) + ue_code(n));
                lemma_carries_split(rbsp, pos, ue_code(code), ue_code(n));
                law_ue_reads_back(rbsp, pos, code);
                law_ue_reads_back(rbsp, pos + ue_code(code).len(), n);
            },
        }
    }
}

proof fn lemma_nothing_left(rbsp: Seq<u8>, pos: nat)
    requires
        pos >= rbsp.len() * 8,
    ensures
        ue_at(rbsp, pos) == Some((0nat, pos)),
{
    reveal(ue_at);
    lemma2_to64();
}

/// Closing codes that are missing take no bits.
proof fn lemma_missing_closing(pps: H264Pps, rbsp: Seq<u8>, s: SliceSyntax)
    requires
        !(slice_kind(s.slice_type) is SP),
    ensures
        closing_fields(pps, s.slice_type, rbsp, rbsp.len() * 8) == Ok::<nat, HeaderFault>(
            rbsp.len() * 8,
        ),
{
    lemma_nothing_left(rbsp, rbsp.len() * 8);
}

proof fn lemma_open_markings_end(
    sps: H264Sps,
    pps: H264Pps,
    nal_unit_type: u8,
    idc: u8,
    rbsp: Seq<u8>,
    s: SliceSyntax,
    steps: Seq<Marking>,
)
    requires
        syntax_fits(sps, s),
        !writes_weight_table(pps, s),
        nal_unit_type != 5,
        idc != 0,
        markings_fit(steps),
        ({
            let code = header_front_code(sps, pps, nal_unit_type as nat, s) + flag_code(true)
                + markings_code(steps);
            carries(rbsp, 0, code) && code.len() >= rbsp.len() * 8
        }),
    ensures
        header_end(sps, pps, nal_unit_type, idc, rbsp) == closing_fields(
            pps,
            s.slice_type,
            rbsp,
            rbsp.len() * 8,
        ),
{
    let nut = nal_unit_type as nat;
    let abc = identifiers_code(s) + picture_code(sps, s) + order_code(sps, pps, nut, s);
    let de = override_code(s) + lists_code(s);
    lemma_carries_split(rbsp, 0, abc + de + flag_code(true), markings_code(steps));
    lemma_carries_split(rbsp, 0, abc + de, flag_code(true));
    lemma_carries_split(rbsp, 0, abc, de);
    assert(flag_code(true)[0]);
    lemma_before_lists(sps, pps, nal_unit_type, rbsp, s);
    lemma_references_of_lists(rbsp, abc.len(), s);
    lemma_open_markings(rbsp, (abc + de).len() + 1, steps);
}

/// A payload that ends inside its markings is counted up to its end; the
/// closing codes that are missing read as 0. (A switching slice counts the
/// flag that only it has.)
pub proof fn law_open_markings_are_counted(
    sps: H264Sps,
    pps: H264Pps,
    nal_unit_type: u8,
    nal_header: u8,
    rbsp: Seq<u8>,
    s: SliceSyntax,
    steps: Seq<Marking>,
)
    requires
        syntax_fits(sps, s),
        !writes_weight_table(pps, s),
        !(slice_kind(s.slice_type) is SP),
        nal_unit_type != 5,
        (nal_header / 32) % 4 != 0,
        markings_fit(steps),
        ({
            let code = header_front_code(sps, pps, nal_unit_type as nat, s) + flag_code(true)
                + markings_code(steps);
            carries(rbsp, 0, code) && code.len() >= rbsp.len() * 8
        }),
    ensures
        payload_bit_offset(sps, pps, nal_unit_type, nal_header, rbsp) == if 8 + rbsp.len() * 8
            <= 65535 {
            Ok::<nat, HeaderFault>(8 + rbsp.len() * 8)
        } else {
            Err::<nat, HeaderFault>(HeaderFault::Overflow(8 + rbsp.len() * 8))
        },
{
    lemma_ref_idc(nal_header);
    let idc = (nal_header >> 5) & 3;
    lemma_open_markings_end(sps, pps, nal_unit_type, idc, rbsp, s, steps);
    lemma_missing_closing(pps, rbsp, s);
    lemma_written_offset(pps.entropy_coding_mode_flag, rbsp.len() * 8);
}

/// What the walk over the payload of a written slice gives its caller.
pub proof fn law_written_payloads_are_counted_for_the_caller(
    sps: &H264Sps,
    pps: &H264Pps,
    nal_unit_type: u8,
    nal_header: u8,
    rbsp: &[u8],
    s: SliceSyntax,
    offset: Result<u16, VaError>,
)
    requires
        syntax_fits(*sps, s),
        !writes_weight_table(*pps, s),
        carries(
            rbsp@,
            0,
            header_code(*sps, *pps, nal_unit_type as nat, (nal_header / 32) as nat % 4, s),
        ),
        call_ensures(
            compute_payload_bit_offset,
            (sps, pps, nal_unit_type, nal_header, rbsp),
            offset,
        ),
    ensures
        ({
            let len = header_code(
                *sps,
                *pps,
                nal_unit_type as nat,
                (nal_header / 32) as nat % 4,
                s,
            ).len();
            let bits: nat = if pps.entropy_coding_mode_flag {
                8 + (len + 7) / 8 * 8
            } else {
                8 + len
            };
            &&& bits <= 65535 ==> offset == Ok::<u16, VaError>(bits as u16)
            &&& bits > 65535 ==> offset is Err
        }),
{
    law_written_header_is_counted(*sps, *pps, nal_unit_type, nal_header, rbsp@, s);
}

} // verus!
