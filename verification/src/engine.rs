//! The engine probe: which devices a host has, and what each of them can do.

use vstd::prelude::*;

use crate::error::VaError;
use crate::error::VaErrorView;
use crate::matrix::advertises;
use crate::matrix::any_row_supports;
use crate::matrix::law_first_row_decides;
use crate::matrix::row_entrypoints;
use crate::matrix::row_supports;
use crate::matrix::EntrypointMatrix;
use crate::matrix::MatrixRow;
use crate::matrix::VaProfile;
use crate::profiles::family_codec;
use crate::profiles::family_profiles;
use crate::profiles::family_supports;
use crate::profiles::family_table;
use crate::profiles::known_codecs;
use crate::profiles::law_codec_names_differ;
use crate::profiles::law_family_is_a_row;
use crate::profiles::law_forward_lookup_covers_table;
use crate::profiles::law_lookups_round_trip;
use crate::profiles::law_support_is_an_advertised_profile;
use crate::profiles::rows_of;
use crate::profiles::CodecFamily;
use crate::profiles::FamilyRow;
use crate::sys::entrypoint::VAEntrypointEncSlice;
use crate::sys::entrypoint::VAEntrypointEncSliceLP;
use crate::sys::entrypoint::VAEntrypointVLD;
use crate::text::joined;
use crate::text::numeral;
use crate::text::numeral_text;

verus! {

/// First minor number of a DRM render node.
pub const RENDER_MINOR_FIRST: u32 = 128;

/// Last minor number of a DRM render node.
pub const RENDER_MINOR_LAST: u32 = 191;

/// Number of render nodes that a host can have.
pub open spec fn render_minors() -> nat {
    (RENDER_MINOR_LAST - RENDER_MINOR_FIRST + 1) as nat
}

/// File name of a render node.
pub open spec fn node_name(minor: nat) -> Seq<char> {
    "renderD"@ + numeral(minor, 10)
}

/// Path of a render node.
pub open spec fn node_path_text(minor: nat) -> Seq<char> {
    "/dev/dri/"@ + node_name(minor)
}

fn node_name_of(minor: u32) -> (name: String)
    ensures
        name@ == node_name(minor as nat),
{
    joined("renderD", numeral_text(minor as u64, 10).as_str())
}

/// The path of a render node.
pub fn node_path(minor: u32) -> (path: String)
    ensures
        path@ == node_path_text(minor as nat),
{
    joined("/dev/dri/", node_name_of(minor).as_str())
}

/// What came of looking for a device on a render node.
#[derive(Clone, Copy, Debug, PartialEq, Eq, Structural)]
pub enum NodeProbe {
    /// The node does not exist.
    Absent,
    /// No display could be opened on the node, or it does not list its
    /// profiles and entrypoints.
    Failed,
    /// A display was opened on the node, and lists its profiles and
    /// entrypoints.
    Opened,
}

/// The minors of the nodes with a device, in order; `probes` begins with
/// that of the first minor.
pub open spec fn opened_minors(probes: Seq<NodeProbe>) -> Seq<nat>
    decreases probes.len(),
{
    if probes.len() == 0 {
        seq![]
    } else {
        let rest = opened_minors(probes.drop_last());
        if probes.last() == NodeProbe::Opened {
            rest.push((RENDER_MINOR_FIRST + probes.len() - 1) as nat)
        } else {
            rest
        }
    }
}

/// Number of nodes that exist.
pub open spec fn existing_nodes(probes: Seq<NodeProbe>) -> nat
    decreases probes.len(),
{
    if probes.len() == 0 {
        0
    } else {
        existing_nodes(probes.drop_last()) + if probes.last() != NodeProbe::Absent {
            1nat
        } else {
            0nat
        }
    }
}

/// The error for an index behind the last device.
pub open spec fn out_of_range_error(index: u32, working: nat, existing: nat) -> VaErrorView {
    VaErrorView::Init {
        status: 0,
        message: "device_index "@ + numeral(index as nat, 10) + " out of range: only "@ + numeral(
            working,
            10,
        ) + " working VA-API device(s) on this host ("@ + numeral(existing, 10)
            + " render node(s) probed)"@,
    }
}

/// Where the search for a device stands.
pub enum DeviceSearch {
    /// The node at this path has to be probed.
    Probe(String),
    /// The device is on the node at this path.
    Found(String),
    /// There are too few devices.
    OutOfRange(VaError),
}

/// A [`DeviceSearch`] with its texts as character sequences.
#[verifier::ext_equal]
pub enum DeviceSearchView {
    Probe(Seq<char>),
    Found(Seq<char>),
    OutOfRange(VaErrorView),
}

impl View for DeviceSearch {
    type V = DeviceSearchView;

    open spec fn view(&self) -> DeviceSearchView {
        match self {
            DeviceSearch::Probe(path) => DeviceSearchView::Probe(path@),
            DeviceSearch::Found(path) => DeviceSearchView::Found(path@),
            DeviceSearch::OutOfRange(error) => DeviceSearchView::OutOfRange(error@),
        }
    }
}

/// The search for the device with a 0-based index, in the order of the
/// minors, given the probes so far.
pub open spec fn device_search(index: u32, probes: Seq<NodeProbe>) -> DeviceSearchView {
    let working = opened_minors(probes);
    if index < working.len() {
        DeviceSearchView::Found(node_path_text(working[index as int]))
    } else if probes.len() >= render_minors() {
        DeviceSearchView::OutOfRange(
            out_of_range_error(index, working.len(), existing_nodes(probes)),
        )
    } else {
        DeviceSearchView::Probe(node_path_text((RENDER_MINOR_FIRST + probes.len()) as nat))
    }
}

fn report_out_of_range(index: u32, working: u64, existing: u64) -> (error: VaError)
    ensures
        error@ == out_of_range_error(index, working as nat, existing as nat),
{
    let mut message: String = joined("device_index ", numeral_text(index as u64, 10).as_str());
    message.append(" out of range: only ");
    message.append(numeral_text(working, 10).as_str());
    message.append(" working VA-API device(s) on this host (");
    message.append(numeral_text(existing, 10).as_str());
    message.append(" render node(s) probed)");
    VaError::Init { status: 0, message }
}

/// Resolve a 0-based device index to the path of its render node, given the
/// probes of the nodes so far, from the first minor on. Only the nodes that
/// the engine report lists count. The search is repeated with one more probe until it
/// finds the device or runs out of nodes.
pub fn device_path_for_index(index: u32, probes: &[NodeProbe]) -> (search: DeviceSearch)
    requires
        probes@.len() <= render_minors(),
    ensures
        search@ == device_search(index, probes@),
{
    let mut working: u32 = 0;
    let mut existing: u32 = 0;
    let mut i: usize = 0;
    while i < probes.len()
        invariant
            i <= probes@.len() <= render_minors(),
            working == opened_minors(probes@.take(i as int)).len(),
            existing == existing_nodes(probes@.take(i as int)),
            working <= i,
            existing <= i,
            working <= index,
        decreases probes@.len() - i,
    {
        assert(probes@.take(i + 1).drop_last() =~= probes@.take(i as int));
        match probes[i] {
            NodeProbe::Absent => {},
            NodeProbe::Failed => {
                existing += 1;
            },
            NodeProbe::Opened => {
                existing += 1;
                if working == index {
                    proof {
                        lemma_opened_prefix(probes@, i + 1);
                    }
                    return DeviceSearch::Found(node_path(RENDER_MINOR_FIRST + i as u32));
                }
                working += 1;
            },
        }
        i += 1;
    }
    assert(probes@.take(i as int) =~= probes@);
    if i as u32 > RENDER_MINOR_LAST - RENDER_MINOR_FIRST {
        DeviceSearch::OutOfRange(report_out_of_range(index, working as u64, existing as u64))
    } else {
        DeviceSearch::Probe(node_path(RENDER_MINOR_FIRST + i as u32))
    }
}

/// Later probes do not move the devices that were found before.
proof fn lemma_opened_prefix(probes: Seq<NodeProbe>, n: int)
    requires
        0 <= n <= probes.len(),
    ensures
        opened_minors(probes.take(n)).len() <= opened_minors(probes).len(),
        forall|k: int|
            0 <= k < opened_minors(probes.take(n)).len() ==> #[trigger] opened_minors(probes)[k]
                == opened_minors(probes.take(n))[k],
    decreases probes.len(),
{
    if n == probes.len() {
        assert(probes.take(n) =~= probes);
    } else {
        let rest = probes.drop_last();
        lemma_opened_prefix(rest, n);
        assert(rest.take(n) =~= probes.take(n));
    }
}

/// What a device can do with one codec.
#[derive(Clone, Debug)]
pub struct HwCodecCaps {
    pub codec: String,
    pub decode: bool,
    pub encode: bool,
    pub max_width: Option<u32>,
    pub max_height: Option<u32>,
    pub max_bit_depth: Option<u32>,
    pub profiles: Vec<String>,
    pub extra: Vec<(String, String)>,
}

/// A device with its capabilities.
#[derive(Clone, Debug)]
pub struct HwDeviceInfo {
    pub name: String,
    pub driver_version: Option<String>,
    pub api_version: Option<String>,
    pub total_memory_bytes: Option<u64>,
    pub extra: Vec<(String, String)>,
    pub codecs: Vec<HwCodecCaps>,
}

/// The texts of a list of strings.
pub open spec fn texts_of(list: Seq<String>) -> Seq<Seq<char>> {
    list.map_values(|text: String| text@)
}

/// The profiles of a family for which the driver advertises an entrypoint.
pub open spec fn present_profiles(rows: Seq<MatrixRow>, profiles: Seq<i32>) -> Seq<VaProfile> {
    profiles.filter_map(
        |raw: i32|
            if row_entrypoints(rows, VaProfile(raw)).len() > 0 {
                Some(VaProfile(raw))
            } else {
                None
            },
    )
}

/// The entrypoints whose picture size limits are asked for.
pub open spec fn sized_entrypoints() -> Seq<i32> {
    seq![VAEntrypointVLD, VAEntrypointEncSlice, VAEntrypointEncSliceLP]
}

/// The pairs of a profile and an entrypoint whose size limits are asked for:
/// those of the sized entrypoints that the driver advertises.
pub open spec fn sized_pairs(rows: Seq<MatrixRow>, profiles: Seq<VaProfile>) -> Seq<
    (VaProfile, i32),
>
    decreases profiles.len(),
{
    if profiles.len() == 0 {
        seq![]
    } else {
        sized_pairs(rows, profiles.drop_last()) + sized_entrypoints().filter_map(
            |entrypoint: i32|
                if row_supports(rows, profiles.last(), entrypoint) {
                    Some((profiles.last(), entrypoint))
                } else {
                    None
                },
        )
    }
}

/// What is known of a codec family before its size limits are asked for.
pub struct FamilyPlan {
    pub family: CodecFamily,
    /// The profiles that the driver advertises.
    pub present: Vec<VaProfile>,
    pub decode: bool,
    pub encode: bool,
    /// The pairs to ask the size limits of.
    pub pairs: Vec<(VaProfile, i32)>,
}

/// A [`FamilyPlan`] with its lists as sequences.
#[verifier::ext_equal]
pub struct FamilyPlanView {
    pub family: FamilyRow,
    pub present: Seq<VaProfile>,
    pub decode: bool,
    pub encode: bool,
    pub pairs: Seq<(VaProfile, i32)>,
}

impl View for FamilyPlan {
    type V = FamilyPlanView;

    open spec fn view(&self) -> FamilyPlanView {
        FamilyPlanView {
            family: self.family@,
            present: self.present@,
            decode: self.decode,
            encode: self.encode,
            pairs: self.pairs@,
        }
    }
}

/// The plan of a family that the driver advertises a profile of.
pub open spec fn family_plan(rows: Seq<MatrixRow>, family: FamilyRow) -> FamilyPlanView {
    let present = present_profiles(rows, family.1);
    FamilyPlanView {
        family,
        present,
        decode: any_row_supports(rows, family.1, VAEntrypointVLD),
        encode: any_row_supports(rows, family.1, VAEntrypointEncSlice) || any_row_supports(
            rows,
            family.1,
            VAEntrypointEncSliceLP,
        ),
        pairs: sized_pairs(rows, present),
    }
}

/// The plans of the families that the driver advertises a profile of, in
/// order.
pub open spec fn family_plans(rows: Seq<MatrixRow>, table: Seq<FamilyRow>) -> Seq<FamilyPlanView> {
    table.filter_map(
        |family: FamilyRow|
            if present_profiles(rows, family.1).len() > 0 {
                Some(family_plan(rows, family))
            } else {
                None
            },
    )
}

/// The views of a list of plans.
pub open spec fn plan_views(plans: Seq<FamilyPlan>) -> Seq<FamilyPlanView> {
    plans.map_values(|plan: FamilyPlan| plan@)
}

fn present_of(matrix: &EntrypointMatrix, profiles: &[i32]) -> (present: Vec<VaProfile>)
    ensures
        present@ == present_profiles(matrix@, profiles@),
{
    let mut present: Vec<VaProfile> = Vec::new();
    let mut i: usize = 0;
    while i < profiles.len()
        invariant
            i <= profiles@.len(),
            present@ == present_profiles(matrix@, profiles@.take(i as int)),
        decreases profiles@.len() - i,
    {
        assert(profiles@.take(i + 1).drop_last() =~= profiles@.take(i as int));
        if matrix.entrypoints_for(VaProfile(profiles[i])).len() > 0 {
            present.push(VaProfile(profiles[i]));
        }
        i += 1;
    }
    assert(profiles@.take(i as int) =~= profiles@);
    present
}

fn pairs_of(matrix: &EntrypointMatrix, profiles: &[VaProfile]) -> (pairs: Vec<(VaProfile, i32)>)
    ensures
        pairs@ == sized_pairs(matrix@, profiles@),
{
    let mut pairs: Vec<(VaProfile, i32)> = Vec::new();
    let mut i: usize = 0;
    while i < profiles.len()
        invariant
            i <= profiles@.len(),
            pairs@ == sized_pairs(matrix@, profiles@.take(i as int)),
        decreases profiles@.len() - i,
    {
        let profile: VaProfile = profiles[i];
        let ghost before = pairs@;
        assert(profiles@.take(i + 1).drop_last() =~= profiles@.take(i as int));
        if matrix.is_supported(profile, VAEntrypointVLD) {
            pairs.push((profile, VAEntrypointVLD));
        }
        if matrix.is_supported(profile, VAEntrypointEncSlice) {
            pairs.push((profile, VAEntrypointEncSlice));
        }
        if matrix.is_supported(profile, VAEntrypointEncSliceLP) {
            pairs.push((profile, VAEntrypointEncSliceLP));
        }
        proof {
            let all = sized_entrypoints();
            reveal_with_fuel(Seq::filter_map, 4);
            assert(all.drop_last() =~= seq![VAEntrypointVLD, VAEntrypointEncSlice]);
            assert(all.drop_last().drop_last() =~= seq![VAEntrypointVLD]);
            assert(all.drop_last().drop_last().drop_last() =~= seq![]);
            assert(pairs@ =~= before + all.filter_map(
                |entrypoint: i32|
                    if row_supports(matrix@, profile, entrypoint) {
                        Some((profile, entrypoint))
                    } else {
                        None
                    },
            ));
        }
        i += 1;
    }
    assert(profiles@.take(i as int) =~= profiles@);
    pairs
}

/// Plan the capability report of a device: one plan for every codec family of
/// which the driver advertises a profile.
pub fn plan_codecs(matrix: &EntrypointMatrix) -> (plans: Vec<FamilyPlan>)
    ensures
        plan_views(plans@) == family_plans(matrix@, family_table()),
{
    let families: Vec<CodecFamily> = known_codecs();
    let ghost table = family_table();
    let mut plans: Vec<FamilyPlan> = Vec::new();
    assert(plan_views(plans@) =~= family_plans(matrix@, table.take(0)));
    let mut i: usize = 0;
    while i < families.len()
        invariant
            i <= families@.len(),
            table == family_table(),
            rows_of(families@) == table,
            plan_views(plans@) == family_plans(matrix@, table.take(i as int)),
        decreases families@.len() - i,
    {
        let family: CodecFamily = families[i];
        let ghost before = plans@;
        assert(table.take(i + 1).drop_last() =~= table.take(i as int));
        assert(table.take(i + 1).last() == family@);
        let present: Vec<VaProfile> = present_of(matrix, family.profiles);
        if present.len() > 0 {
            let decode: bool = matrix.any_supports(family.profiles, VAEntrypointVLD);
            let encode: bool = matrix.any_supports(family.profiles, VAEntrypointEncSlice)
                || matrix.any_supports(family.profiles, VAEntrypointEncSliceLP);
            let pairs: Vec<(VaProfile, i32)> = pairs_of(matrix, present.as_slice());
            let plan = FamilyPlan { family, present, decode, encode, pairs };
            assert(plan@ == family_plan(matrix@, family@));
            plans.push(plan);
            assert(plan_views(plans@) =~= plan_views(before) + seq![plan@]);
        }
        i += 1;
    }
    assert(table.take(i as int) =~= table);
    plans
}

/// The size limits of one pair, as [`crate::config::get_attribute`] returned
/// them.
pub struct SizeAnswer {
    pub width: Result<Option<u32>, VaError>,
    pub height: Result<Option<u32>, VaError>,
}

/// A limit that was reported; 0 and a failed query count as none.
pub open spec fn known_limit(answer: Result<Option<u32>, VaError>) -> Option<u32> {
    match answer {
        Ok(Some(limit)) => if limit == 0 {
            None
        } else {
            Some(limit)
        },
        _ => None,
    }
}

/// `largest` is the largest of the limits; `None` where there is none.
pub open spec fn is_largest(largest: Option<u32>, limits: Seq<Option<u32>>) -> bool {
    match largest {
        Some(most) => limits.contains(Some(most)) && forall|i: int|
            0 <= i < limits.len() ==> (#[trigger] limits[i] matches Some(limit) ==> limit <= most),
        None => forall|i: int| 0 <= i < limits.len() ==> #[trigger] limits[i] is None,
    }
}

/// The width limits that were reported.
pub open spec fn width_limits(answers: Seq<SizeAnswer>) -> Seq<Option<u32>> {
    answers.map_values(|answer: SizeAnswer| known_limit(answer.width))
}

/// The height limits that were reported.
pub open spec fn height_limits(answers: Seq<SizeAnswer>) -> Seq<Option<u32>> {
    answers.map_values(|answer: SizeAnswer| known_limit(answer.height))
}

/// The larger of a limit and an answer.
fn raised(largest: Option<u32>, answer: &Result<Option<u32>, VaError>) -> (raised: Option<u32>)
    ensures
        raised == match (largest, known_limit(*answer)) {
            (Some(most), Some(limit)) => Some(
                if limit > most {
                    limit
                } else {
                    most
                },
            ),
            (Some(most), None) => Some(most),
            (None, known) => known,
        },
{
    match answer {
        Ok(Some(limit)) => if *limit == 0 {
            largest
        } else {
            match largest {
                Some(most) => if *limit > most {
                    Some(*limit)
                } else {
                    Some(most)
                },
                None => Some(*limit),
            }
        },
        _ => largest,
    }
}

/// One more limit.
proof fn lemma_raised(largest: Option<u32>, limits: Seq<Option<u32>>, more: Option<u32>)
    requires
        is_largest(largest, limits),
    ensures
        is_largest(
            match (largest, more) {
                (Some(most), Some(limit)) => Some(
                    if limit > most {
                        limit
                    } else {
                        most
                    },
                ),
                (Some(most), None) => Some(most),
                (None, known) => known,
            },
            limits.push(more),
        ),
{
    let all = limits.push(more);
    assert(all[limits.len() as int] == more);
    if let Some(most) = largest {
        let i = choose|i: int| 0 <= i < limits.len() && limits[i] == Some(most);
        assert(all[i] == Some(most));
    }
    assert(forall|i: int| 0 <= i < limits.len() ==> all[i] == #[trigger] limits[i]);
}

/// The largest picture width and height that any pair reported.
pub fn max_dims_across(answers: &[SizeAnswer]) -> (dims: (Option<u32>, Option<u32>))
    ensures
        is_largest(dims.0, width_limits(answers@)),
        is_largest(dims.1, height_limits(answers@)),
{
    let mut max_w: Option<u32> = None;
    let mut max_h: Option<u32> = None;
    let mut i: usize = 0;
    while i < answers.len()
        invariant
            i <= answers@.len(),
            is_largest(max_w, width_limits(answers@.take(i as int))),
            is_largest(max_h, height_limits(answers@.take(i as int))),
        decreases answers@.len() - i,
    {
        let answer: &SizeAnswer = &answers[i];
        proof {
            let seen = answers@.take(i as int);
            lemma_raised(max_w, width_limits(seen), known_limit(answer.width));
            lemma_raised(max_h, height_limits(seen), known_limit(answer.height));
            assert(width_limits(answers@.take(i + 1)) =~= width_limits(seen).push(
                known_limit(answer.width),
            ));
            assert(height_limits(answers@.take(i + 1)) =~= height_limits(seen).push(
                known_limit(answer.height),
            ));
        }
        max_w = raised(max_w, &answer.width);
        max_h = raised(max_h, &answer.height);
        i += 1;
    }
    assert(answers@.take(i as int) =~= answers@);
    (max_w, max_h)
}

/// `caps` reports a planned family with the size limits that were answered.
pub open spec fn is_caps_of(
    caps: HwCodecCaps,
    plan: FamilyPlanView,
    answers: Seq<SizeAnswer>,
) -> bool {
    &&& caps.codec@ == plan.family.0
    &&& caps.decode == plan.decode
    &&& caps.encode == plan.encode
    &&& is_largest(caps.max_width, width_limits(answers))
    &&& is_largest(caps.max_height, height_limits(answers))
    &&& caps.max_bit_depth is None
    &&& texts_of(caps.profiles@) == plan.present.map_values(
        |profile: VaProfile| profile.name_text(),
    )
    &&& caps.extra@.len() == 0
}

impl FamilyPlan {
    /// The capabilities of a planned family, given the answers for its pairs.
    pub fn caps(&self, answers: &[SizeAnswer]) -> (caps: HwCodecCaps)
        requires
            answers@.len() == self.pairs@.len(),
        ensures
            is_caps_of(caps, self@, answers@),
    {
        let (max_width, max_height): (Option<u32>, Option<u32>) = max_dims_across(answers);
        let ghost names = self.present@.map_values(|profile: VaProfile| profile.name_text());
        let mut profiles: Vec<String> = Vec::new();
        assert(texts_of(profiles@) =~= names.take(0));
        let mut i: usize = 0;
        while i < self.present.len()
            invariant
                i <= self.present@.len(),
                names == self.present@.map_values(|profile: VaProfile| profile.name_text()),
                texts_of(profiles@) == names.take(i as int),
            decreases self.present@.len() - i,
        {
            let ghost before = profiles@;
            let name: String = self.present[i].name();
            profiles.push(name);
            assert(texts_of(profiles@) =~= texts_of(before).push(name@));
            assert(names.take(i + 1) =~= names.take(i as int).push(names[i as int]));
            i += 1;
        }
        assert(names.take(i as int) =~= names);
        HwCodecCaps {
            codec: self.family.codec.to_string(),
            decode: self.decode,
            encode: self.encode,
            max_width,
            max_height,
            max_bit_depth: None,
            profiles,
            extra: Vec::new(),
        }
    }
}

/// The capabilities of a device, given its plans and the answers for the pairs
/// of each.
pub fn collect_codecs(plans: &[FamilyPlan], answers: &[Vec<SizeAnswer>]) -> (codecs: Vec<
    HwCodecCaps,
>)
    requires
        answers@.len() == plans@.len(),
        forall|i: int|
            0 <= i < plans@.len() ==> (#[trigger] answers@[i])@.len() == plans@[i].pairs@.len(),
    ensures
        codecs@.len() == plans@.len(),
        forall|i: int|
            0 <= i < codecs@.len() ==> is_caps_of(
                #[trigger] codecs@[i],
                plans@[i]@,
                answers@[i]@,
            ),
{
    let mut codecs: Vec<HwCodecCaps> = Vec::new();
    let mut i: usize = 0;
    while i < plans.len()
        invariant
            i <= plans@.len(),
            answers@.len() == plans@.len(),
            forall|k: int|
                0 <= k < plans@.len() ==> (#[trigger] answers@[k])@.len()
                    == plans@[k].pairs@.len(),
            codecs@.len() == i,
            forall|k: int|
                0 <= k < i ==> is_caps_of(#[trigger] codecs@[k], plans@[k]@, answers@[k]@),
        decreases plans@.len() - i,
    {
        assert(answers@[i as int]@.len() == plans@[i as int].pairs@.len());
        codecs.push(plans[i].caps(answers[i].as_slice()));
        i += 1;
    }
    codecs
}

/// The name of a device: the driver's vendor string, and the node it is on.
pub open spec fn device_name(vendor: Result<String, VaError>, minor: nat) -> Seq<char> {
    (match vendor {
        Ok(text) => text@,
        Err(_) => "unknown VA-API driver"@,
    }) + " ("@ + node_name(minor) + ")"@
}

/// `info` describes the device on the render node `minor`.
pub open spec fn is_device_on(info: HwDeviceInfo, minor: nat) -> bool {
    &&& info.extra@.len() == 1
    &&& info.extra@[0].0@ == "dri_node"@
    &&& info.extra@[0].1@ == node_path_text(minor)
}

/// Describe the device on the render node `minor`, given its vendor string,
/// the API version and its codecs.
pub fn probe_node(
    minor: u32,
    vendor: Result<String, VaError>,
    version: (u32, u32),
    codecs: Vec<HwCodecCaps>,
) -> (info: HwDeviceInfo)
    ensures
        info.name@ == device_name(vendor, minor as nat),
        info.driver_version is None,
        info.api_version matches Some(text) && text@ == "VA-API "@ + numeral(version.0 as nat, 10)
            + "."@ + numeral(version.1 as nat, 10),
        info.total_memory_bytes is None,
        is_device_on(info, minor as nat),
        info.codecs@ == codecs@,
{
    let mut name: String = match vendor {
        Ok(text) => text,
        Err(_) => "unknown VA-API driver".to_string(),
    };
    name.append(" (");
    name.append(node_name_of(minor).as_str());
    name.append(")");
    let mut api_version: String = joined("VA-API ", numeral_text(version.0 as u64, 10).as_str());
    api_version.append(".");
    api_version.append(numeral_text(version.1 as u64, 10).as_str());
    let mut extra: Vec<(String, String)> = Vec::new();
    extra.push(("dri_node".to_string(), node_path(minor)));
    HwDeviceInfo {
        name,
        driver_version: None,
        api_version: Some(api_version),
        total_memory_bytes: None,
        extra,
        codecs,
    }
}

/// What came of probing a render node.
pub enum NodeReport {
    /// The node does not exist.
    Absent,
    /// No display could be opened on the node.
    Failed,
    /// The display on the node refused to list its profiles or entrypoints.
    NoMatrix,
    /// The device on the node.
    Device(HwDeviceInfo),
}

/// The devices among the reports, in order.
pub open spec fn devices(reports: Seq<NodeReport>) -> Seq<HwDeviceInfo> {
    reports.filter_map(
        |report: NodeReport|
            match report {
                NodeReport::Device(info) => Some(info),
                _ => None,
            },
    )
}

/// The devices of a host, in the order of their render nodes; nodes without a
/// working device are passed over.
pub fn engine_info(reports: Vec<NodeReport>) -> (found: Vec<HwDeviceInfo>)
    ensures
        found@ == devices(reports@),
{
    let ghost given = reports@;
    let mut rest: Vec<NodeReport> = reports;
    let mut found: Vec<HwDeviceInfo> = Vec::new();
    let ghost mut done: int = 0;
    while rest.len() > 0
        invariant
            0 <= done <= given.len(),
            rest@ == given.skip(done),
            found@ == devices(given.take(done)),
        decreases rest@.len(),
    {
        assert(rest@[0] == given[done]);
        assert(given.take(done + 1).drop_last() =~= given.take(done));
        let report: NodeReport = rest.remove(0);
        assert(rest@ =~= given.skip(done + 1));
        if let NodeReport::Device(info) = report {
            found.push(info);
        }
        proof {
            done = done + 1;
        }
    }
    assert(given.take(done) =~= given);
    found
}

/// What the search for a device sees on the nodes of the reports.
pub open spec fn probes_of(reports: Seq<NodeReport>) -> Seq<NodeProbe> {
    reports.map_values(
        |report: NodeReport|
            match report {
                NodeReport::Absent => NodeProbe::Absent,
                NodeReport::Failed | NodeReport::NoMatrix => NodeProbe::Failed,
                NodeReport::Device(_) => NodeProbe::Opened,
            },
    )
}

/// Every device describes the node that it was found on.
pub open spec fn reports_describe_nodes(reports: Seq<NodeReport>) -> bool {
    forall|i: int|
        0 <= i < reports.len() ==> (#[trigger] reports[i] matches NodeReport::Device(info)
            ==> is_device_on(info, (RENDER_MINOR_FIRST + i) as nat))
}

proof fn lemma_devices_match_opened(reports: Seq<NodeReport>)
    requires
        reports_describe_nodes(reports),
    ensures
        devices(reports).len() == opened_minors(probes_of(reports)).len(),
        forall|k: int|
            0 <= k < devices(reports).len() ==> is_device_on(
                #[trigger] devices(reports)[k],
                opened_minors(probes_of(reports))[k],
            ),
    decreases reports.len(),
{
    if reports.len() > 0 {
        let rest = reports.drop_last();
        assert(reports_describe_nodes(rest)) by {
            assert(forall|i: int| 0 <= i < rest.len() ==> #[trigger] rest[i] == reports[i]);
        }
        lemma_devices_match_opened(rest);
        assert(probes_of(reports).drop_last() =~= probes_of(rest));
        let last = reports[reports.len() - 1];
        assert(last matches NodeReport::Device(info) ==> is_device_on(
            info,
            (RENDER_MINOR_FIRST + reports.len() - 1) as nat,
        ));
    }
}

/// Device indices are positions in the engine report. The device with a given
/// index is on the node that the report's entry at that position names; and
/// an index behind the last entry is out of range once all nodes were probed.
pub proof fn law_device_index_matches_engine_info(reports: Seq<NodeReport>, index: u32)
    requires
        reports.len() == render_minors(),
        reports_describe_nodes(reports),
    ensures
        index < devices(reports).len() ==> device_search(index, probes_of(reports))
            == DeviceSearchView::Found(devices(reports)[index as int].extra@[0].1@),
        index >= devices(reports).len() ==> device_search(index, probes_of(reports)) is OutOfRange,
{
    lemma_devices_match_opened(reports);
    if index < devices(reports).len() {
        assert(is_device_on(
            devices(reports)[index as int],
            opened_minors(probes_of(reports))[index as int],
        ));
    }
}

/// A device that was found stays found, whatever the later nodes are.
pub proof fn law_device_search_is_stable(index: u32, probes: Seq<NodeProbe>, n: int)
    requires
        0 <= n <= probes.len(),
        device_search(index, probes.take(n)) is Found,
    ensures
        device_search(index, probes) == device_search(index, probes.take(n)),
{
    lemma_opened_prefix(probes, n);
}

/// The families of the plans are rows of the table.
proof fn lemma_plans_from_table(rows: Seq<MatrixRow>, table: Seq<FamilyRow>, k: int)
    requires
        0 <= k < family_plans(rows, table).len(),
    ensures
        exists|i: int|
            0 <= i < table.len() && family_plans(rows, table)[k] == family_plan(
                rows,
                #[trigger] table[i],
            ) && present_profiles(rows, table[i].1).len() > 0,
    decreases table.len(),
{
    let rest = table.drop_last();
    let plans = family_plans(rows, table);
    if k < family_plans(rows, rest).len() {
        lemma_plans_from_table(rows, rest, k);
        let i = choose|i: int|
            0 <= i < rest.len() && family_plans(rows, rest)[k] == family_plan(
                rows,
                #[trigger] rest[i],
            ) && present_profiles(rows, rest[i].1).len() > 0;
        assert(plans[k] == family_plan(rows, table[i]));
    } else {
        assert(plans[k] == family_plan(rows, table[table.len() - 1]));
    }
}

/// The engine report knows the codecs that the family table knows, and
/// agrees with the codec checks: a reported codec is a codec of the table, it
/// has a profile, and its flags are those that decode and encode support are
/// decided by.
pub proof fn law_engine_report_agrees_with_codec_checks(rows: Seq<MatrixRow>, k: int)
    requires
        0 <= k < family_plans(rows, family_table()).len(),
    ensures
        ({
            let plan = family_plans(rows, family_table())[k];
            let codec_id = plan.family.0;
            &&& family_profiles(family_table(), codec_id) == Some(plan.family.1)
            &&& plan.present.len() > 0
            &&& plan.decode == family_supports(rows, codec_id, VAEntrypointVLD)
            &&& plan.encode == (family_supports(rows, codec_id, VAEntrypointEncSlice)
                || family_supports(rows, codec_id, VAEntrypointEncSliceLP))
        }),
{
    let table = family_table();
    lemma_plans_from_table(rows, table, k);
    let i = choose|i: int|
        0 <= i < table.len() && family_plans(rows, table)[k] == family_plan(
            rows,
            #[trigger] table[i],
        ) && present_profiles(rows, table[i].1).len() > 0;
    law_forward_lookup_covers_table(i);
}

/// The rows of the table that a driver advertises a profile of have a plan,
/// and only those.
proof fn lemma_table_rows_have_plans(rows: Seq<MatrixRow>, table: Seq<FamilyRow>, i: int)
    requires
        0 <= i < table.len(),
        present_profiles(rows, table[i].1).len() > 0,
    ensures
        exists|k: int|
            0 <= k < family_plans(rows, table).len() && #[trigger] family_plans(rows, table)[k]
                == family_plan(rows, table[i]),
    decreases table.len(),
{
    let rest = table.drop_last();
    let plans = family_plans(rows, table);
    if i < rest.len() {
        lemma_table_rows_have_plans(rows, rest, i);
        let k = choose|k: int|
            0 <= k < family_plans(rows, rest).len() && #[trigger] family_plans(rows, rest)[k]
                == family_plan(rows, rest[i]);
        assert(plans[k] == family_plan(rows, table[i]));
    } else {
        assert(plans[plans.len() - 1] == family_plan(rows, table[i]));
    }
}

/// A profile of a family is present exactly when its row is not empty.
proof fn lemma_present(rows: Seq<MatrixRow>, profiles: Seq<i32>, raw: i32)
    ensures
        present_profiles(rows, profiles).contains(VaProfile(raw)) <==> profiles.contains(raw)
            && row_entrypoints(rows, VaProfile(raw)).len() > 0,
    decreases profiles.len(),
{
    let all = present_profiles(rows, profiles);
    if profiles.len() == 0 {
        assert(all =~= seq![]);
    } else {
        let rest = profiles.drop_last();
        let last = profiles[profiles.len() - 1];
        let kept = present_profiles(rows, rest);
        lemma_present(rows, rest, raw);
        assert(all =~= kept + if row_entrypoints(rows, VaProfile(last)).len() > 0 {
            seq![VaProfile(last)]
        } else {
            seq![]
        });
        if all.contains(VaProfile(raw)) {
            let k = choose|k: int| 0 <= k < all.len() && all[k] == VaProfile(raw);
            if k < kept.len() {
                assert(kept[k] == VaProfile(raw));
                let j = choose|j: int| 0 <= j < rest.len() && rest[j] == raw;
                assert(profiles[j] == raw);
            } else {
                assert(profiles[profiles.len() - 1] == raw);
            }
        }
        if profiles.contains(raw) && row_entrypoints(rows, VaProfile(raw)).len() > 0 {
            let j = choose|j: int| 0 <= j < profiles.len() && profiles[j] == raw;
            if j < rest.len() {
                assert(rest[j] == raw);
                let k = choose|k: int| 0 <= k < kept.len() && kept[k] == VaProfile(raw);
                assert(all[k] == VaProfile(raw));
            } else {
                assert(all[kept.len() as int] == VaProfile(raw));
            }
        }
    }
}

/// `text` names the profile `raw`, which belongs to `codec` and has an
/// entrypoint.
pub open spec fn names_present_profile(
    rows: Seq<MatrixRow>,
    codec: Seq<char>,
    text: Seq<char>,
    raw: i32,
) -> bool {
    &&& family_codec(family_table(), raw) == Some(codec)
    &&& row_entrypoints(rows, VaProfile(raw)).len() > 0
    &&& text == VaProfile(raw).name_text()
}

/// `text` names some profile of `codec` that has an entrypoint.
pub open spec fn is_present_name(
    rows: Seq<MatrixRow>,
    codec: Seq<char>,
    text: Seq<char>,
) -> bool {
    exists|raw: i32| #[trigger] names_present_profile(rows, codec, text, raw)
}

/// The report of a device says of each codec what the driver advertises. For
/// every entry there is a profile of its codec with some entrypoint. It says
/// "decode" exactly when a profile of the codec is advertised for decoding
/// (1), and "encode" exactly when one is for encoding (6 or 8). Its profiles
/// are the names of the codec's profiles that have an entrypoint.
pub proof fn law_report_says_what_is_advertised(
    rows: Seq<MatrixRow>,
    plans: Seq<FamilyPlan>,
    answers: Seq<Vec<SizeAnswer>>,
    codecs: Seq<HwCodecCaps>,
    k: int,
)
    requires
        plan_views(plans) == family_plans(rows, family_table()),
        codecs.len() == plans.len(),
        forall|i: int|
            0 <= i < codecs.len() ==> is_caps_of(#[trigger] codecs[i], plans[i]@, answers[i]@),
        0 <= k < codecs.len(),
    ensures
        codecs[k].decode <==> exists|raw: i32| #[trigger]
            advertises(rows, raw, 1) && family_codec(family_table(), raw) == Some(
                codecs[k].codec@,
            ),
        codecs[k].encode <==> ((exists|raw: i32| #[trigger]
            advertises(rows, raw, 6) && family_codec(family_table(), raw) == Some(
                codecs[k].codec@,
            )) || (exists|raw: i32| #[trigger]
            advertises(rows, raw, 8) && family_codec(family_table(), raw) == Some(
                codecs[k].codec@,
            ))),
        codecs[k].profiles@.len() > 0,
        forall|j: int|
            0 <= j < codecs[k].profiles@.len() ==> is_present_name(
                rows,
                codecs[k].codec@,
                (#[trigger] codecs[k].profiles@[j])@,
            ),
{
    let caps = codecs[k];
    let plan = plans[k]@;
    assert(is_caps_of(caps, plan, answers[k]@));
    assert(plan == family_plans(rows, family_table())[k]) by {
        assert(plan_views(plans)[k] == plan);
    }
    law_engine_report_agrees_with_codec_checks(rows, k);
    law_support_is_an_advertised_profile(rows, caps.codec@, 1);
    law_support_is_an_advertised_profile(rows, caps.codec@, 6);
    law_support_is_an_advertised_profile(rows, caps.codec@, 8);
    let names = plan.present.map_values(|profile: VaProfile| profile.name_text());
    assert(texts_of(caps.profiles@).len() == caps.profiles@.len());
    assert forall|j: int| 0 <= j < caps.profiles@.len() implies is_present_name(
        rows,
        caps.codec@,
        (#[trigger] caps.profiles@[j])@,
    ) by {
        let profile = plan.present[j];
        assert(texts_of(caps.profiles@)[j] == caps.profiles@[j]@);
        assert(names[j] == profile.name_text());
        assert(profile == VaProfile(profile.0));
        assert(plan.present.contains(profile));
        lemma_plans_from_table(rows, family_table(), k);
        lemma_present(rows, plan.family.1, profile.0);
        law_lookups_round_trip(caps.codec@, profile.0);
        assert(names_present_profile(rows, caps.codec@, caps.profiles@[j]@, profile.0));
    }
}

/// No codec that the driver knows is left out: a profile with an entrypoint
/// brings an entry for its codec that names it.
pub proof fn law_report_is_complete(
    rows: Seq<MatrixRow>,
    plans: Seq<FamilyPlan>,
    answers: Seq<Vec<SizeAnswer>>,
    codecs: Seq<HwCodecCaps>,
    raw: i32,
)
    requires
        plan_views(plans) == family_plans(rows, family_table()),
        codecs.len() == plans.len(),
        forall|i: int|
            0 <= i < codecs.len() ==> is_caps_of(#[trigger] codecs[i], plans[i]@, answers[i]@),
        family_codec(family_table(), raw) is Some,
        row_entrypoints(rows, VaProfile(raw)).len() > 0,
    ensures
        exists|k: int|
            0 <= k < codecs.len() && Some((#[trigger] codecs[k]).codec@) == family_codec(
                family_table(),
                raw,
            ) && texts_of(codecs[k].profiles@).contains(VaProfile(raw).name_text()),
{
    let table = family_table();
    let codec_id = family_codec(table, raw)->0;
    law_lookups_round_trip(codec_id, raw);
    let profiles = family_profiles(table, codec_id)->0;
    law_family_is_a_row(codec_id);
    let i = choose|i: int| 0 <= i < table.len() && table[i] == (codec_id, profiles);
    lemma_present(rows, profiles, raw);
    let present = present_profiles(rows, profiles);
    let j = choose|j: int| 0 <= j < present.len() && present[j] == VaProfile(raw);
    lemma_table_rows_have_plans(rows, table, i);
    let k = choose|k: int|
        0 <= k < family_plans(rows, table).len() && #[trigger] family_plans(rows, table)[k]
            == family_plan(rows, table[i]);
    assert(plan_views(plans)[k] == plans[k]@);
    assert(is_caps_of(codecs[k], plans[k]@, answers[k]@));
    assert(plans[k]@.present == present);
    let names = plans[k]@.present.map_values(|profile: VaProfile| profile.name_text());
    assert(names[j] == VaProfile(raw).name_text());
    assert(texts_of(codecs[k].profiles@)[j] == VaProfile(raw).name_text());
}

/// The size limit of an entry is one that the driver reported for the codec,
/// never 0, and no reported limit is larger; without a report there is none.
pub proof fn law_report_gives_the_largest_limits(
    caps: HwCodecCaps,
    plan: FamilyPlanView,
    answers: Seq<SizeAnswer>,
)
    requires
        is_caps_of(caps, plan, answers),
    ensures
        caps.max_width matches Some(w) ==> w > 0 && exists|i: int|
            0 <= i < answers.len() && (#[trigger] answers[i]).width == Ok::<
                Option<u32>,
                VaError,
            >(Some(w)),
        caps.max_height matches Some(h) ==> h > 0 && exists|i: int|
            0 <= i < answers.len() && (#[trigger] answers[i]).height == Ok::<
                Option<u32>,
                VaError,
            >(Some(h)),
        forall|i: int|
            0 <= i < answers.len() ==> ((#[trigger] answers[i]).width matches Ok(Some(w)) ==> w
                > 0 ==> (caps.max_width matches Some(most) && w <= most)),
        forall|i: int|
            0 <= i < answers.len() ==> ((#[trigger] answers[i]).height matches Ok(Some(h)) ==> h
                > 0 ==> (caps.max_height matches Some(most) && h <= most)),
{
    let widths = width_limits(answers);
    let heights = height_limits(answers);
    assert forall|i: int| 0 <= i < answers.len() implies widths[i] == known_limit(
        (#[trigger] answers[i]).width,
    ) && heights[i] == known_limit(answers[i].height) by {}
    if let Some(w) = caps.max_width {
        let i = choose|i: int| 0 <= i < widths.len() && widths[i] == Some(w);
        assert(known_limit(answers[i].width) == Some(w));
    }
    if let Some(h) = caps.max_height {
        let i = choose|i: int| 0 <= i < heights.len() && heights[i] == Some(h);
        assert(known_limit(answers[i].height) == Some(h));
    }
}

/// The same, of the report that is collected for a matrix: it decodes (1) and
/// encodes (6 or 8) what the matrix advertises a profile of. Nothing is known
/// of bit depths.
pub proof fn law_collected_report_says_what_is_advertised(
    matrix: &EntrypointMatrix,
    planned: Vec<FamilyPlan>,
    plans: &[FamilyPlan],
    answers: &[Vec<SizeAnswer>],
    codecs: Vec<HwCodecCaps>,
    k: int,
)
    requires
        call_ensures(plan_codecs, (matrix,), planned),
        plans@ == planned@,
        call_ensures(collect_codecs, (plans, answers), codecs),
        0 <= k < codecs@.len(),
    ensures
        codecs@.len() == plans@.len(),
        codecs@[k].decode <==> exists|raw: i32| #[trigger]
            advertises(matrix@, raw, 1) && family_codec(family_table(), raw) == Some(
                codecs@[k].codec@,
            ),
        codecs@[k].encode <==> ((exists|raw: i32| #[trigger]
            advertises(matrix@, raw, 6) && family_codec(family_table(), raw) == Some(
                codecs@[k].codec@,
            )) || (exists|raw: i32| #[trigger]
            advertises(matrix@, raw, 8) && family_codec(family_table(), raw) == Some(
                codecs@[k].codec@,
            ))),
        codecs@[k].profiles@.len() > 0,
        forall|j: int|
            0 <= j < codecs@[k].profiles@.len() ==> is_present_name(
                matrix@,
                codecs@[k].codec@,
                (#[trigger] codecs@[k].profiles@[j])@,
            ),
        codecs@[k].max_bit_depth is None,
        codecs@[k].extra@.len() == 0,
{
    law_report_says_what_is_advertised(matrix@, plans@, answers@, codecs@, k);
    assert(is_caps_of(codecs@[k], plans@[k]@, answers@[k]@));
}

proof fn lemma_plans_in_order(rows: Seq<MatrixRow>, table: Seq<FamilyRow>, j: int, k: int)
    requires
        0 <= j < k < family_plans(rows, table).len(),
    ensures
        exists|first: int, second: int|
            0 <= first < second < table.len() && family_plans(rows, table)[j].family
                == #[trigger] table[first] && family_plans(rows, table)[k].family
                == #[trigger] table[second],
    decreases table.len(),
{
    let rest = table.drop_last();
    let plans = family_plans(rows, table);
    let before = family_plans(rows, rest);
    if k < before.len() {
        lemma_plans_in_order(rows, rest, j, k);
        let (first, second) = choose|first: int, second: int|
            0 <= first < second < rest.len() && before[j].family == #[trigger] rest[first]
                && before[k].family == #[trigger] rest[second];
        assert(plans[j].family == table[first] && plans[k].family == table[second]);
    } else {
        lemma_plans_from_table(rows, rest, j);
        let first = choose|i: int|
            0 <= i < rest.len() && before[j] == family_plan(rows, #[trigger] rest[i])
                && present_profiles(rows, rest[i].1).len() > 0;
        assert(plans[j].family == table[first]);
        assert(plans[k].family == table[table.len() - 1]);
    }
}

/// The place of a codec in the order of registration.
pub open spec fn codec_rank(codec: Seq<char>) -> int {
    if codec == "h264"@ {
        0
    } else if codec == "hevc"@ {
        1
    } else if codec == "av1"@ {
        2
    } else if codec == "vp8"@ {
        3
    } else if codec == "vp9"@ {
        4
    } else if codec == "mpeg2"@ {
        5
    } else if codec == "vc1"@ {
        6
    } else {
        7
    }
}

/// A report lists its codecs in their order of registration, each once.
pub proof fn law_report_is_in_order(
    matrix: &EntrypointMatrix,
    planned: Vec<FamilyPlan>,
    plans: &[FamilyPlan],
    answers: &[Vec<SizeAnswer>],
    codecs: Vec<HwCodecCaps>,
    j: int,
    k: int,
)
    requires
        call_ensures(plan_codecs, (matrix,), planned),
        plans@ == planned@,
        call_ensures(collect_codecs, (plans, answers), codecs),
        0 <= j < k < codecs@.len(),
    ensures
        codec_rank(codecs@[j].codec@) < codec_rank(codecs@[k].codec@),
{
    let table = family_table();
    assert(is_caps_of(codecs@[j], plans@[j]@, answers@[j]@));
    assert(is_caps_of(codecs@[k], plans@[k]@, answers@[k]@));
    assert(plan_views(plans@)[j] == plans@[j]@ && plan_views(plans@)[k] == plans@[k]@);
    lemma_plans_in_order(matrix@, table, j, k);
    let (first, second) = choose|first: int, second: int|
        0 <= first < second < table.len() && family_plans(matrix@, table)[j].family
            == #[trigger] table[first] && family_plans(matrix@, table)[k].family
            == #[trigger] table[second];
    law_codec_names_differ();
    assert(table.len() == 8);
    assert(table[0].0 == "h264"@ && table[1].0 == "hevc"@ && table[2].0 == "av1"@ && table[3].0
        == "vp8"@ && table[4].0 == "vp9"@ && table[5].0 == "mpeg2"@ && table[6].0 == "vc1"@
        && table[7].0 == "jpeg"@);
    assert(codec_rank(table[first].0) == first && codec_rank(table[second].0) == second);
}

proof fn lemma_sized_pairs(
    rows: Seq<MatrixRow>,
    profiles: Seq<VaProfile>,
    profile: VaProfile,
    entrypoint: i32,
)
    ensures
        sized_pairs(rows, profiles).contains((profile, entrypoint)) <==> profiles.contains(profile)
            && (entrypoint == 1 || entrypoint == 6 || entrypoint == 8) && row_supports(
            rows,
            profile,
            entrypoint,
        ),
    decreases profiles.len(),
{
    let all = sized_pairs(rows, profiles);
    let pair = (profile, entrypoint);
    if profiles.len() > 0 {
        let rest = profiles.drop_last();
        let last = profiles[profiles.len() - 1];
        let before = sized_pairs(rows, rest);
        lemma_sized_pairs(rows, rest, profile, entrypoint);
        let pick = |entrypoint: i32|
            if row_supports(rows, last, entrypoint) {
                Some((last, entrypoint))
            } else {
                None
            };
        let own = sized_entrypoints().filter_map(pick);
        assert(all =~= before + own);
        let three = sized_entrypoints();
        assert(three.drop_last() =~= seq![1i32, 6]);
        assert(three.drop_last().drop_last() =~= seq![1i32]);
        assert(three.drop_last().drop_last().drop_last() =~= seq![]);
        reveal_with_fuel(Seq::filter_map, 4);
        let one = |e: i32| if row_supports(rows, last, e) { seq![(last, e)] } else { seq![] };
        assert(own =~= one(1) + one(6) + one(8));
        assert(own.contains(pair) <==> profile == last && (entrypoint == 1 || entrypoint == 6
            || entrypoint == 8) && row_supports(rows, last, entrypoint)) by {
            let (a, b, c) = (one(1), one(6), one(8));
            if own.contains(pair) {
                let i = choose|i: int| 0 <= i < own.len() && own[i] == pair;
                assert(i < a.len() ==> own[i] == a[i]);
                assert(a.len() <= i < a.len() + b.len() ==> own[i] == b[i - a.len()]);
                assert(a.len() + b.len() <= i ==> own[i] == c[i - a.len() - b.len()]);
            }
            if profile == last && row_supports(rows, last, entrypoint) {
                if entrypoint == 1 {
                    assert(own[0] == pair);
                }
                if entrypoint == 6 {
                    assert(own[a.len() as int] == pair);
                }
                if entrypoint == 8 {
                    assert(own[(a.len() + b.len()) as int] == pair);
                }
            }
        }
        if all.contains(pair) {
            let i = choose|i: int| 0 <= i < all.len() && all[i] == pair;
            if i < before.len() {
                assert(before[i] == pair);
                let j = choose|j: int| 0 <= j < rest.len() && rest[j] == profile;
                assert(profiles[j] == profile);
            } else {
                assert(own[i - before.len()] == pair);
                assert(profiles[profiles.len() - 1] == profile);
            }
        }
        if before.contains(pair) {
            let i = choose|i: int| 0 <= i < before.len() && before[i] == pair;
            assert(all[i] == pair);
        }
        if own.contains(pair) {
            let i = choose|i: int| 0 <= i < own.len() && own[i] == pair;
            assert(all[before.len() + i] == pair);
        }
        if profiles.contains(profile) && profile != last {
            let j = choose|j: int| 0 <= j < profiles.len() && profiles[j] == profile;
            assert(rest[j] == profile);
        }
    }
}

/// The size limits are asked for exactly the profiles of the codec that are
/// advertised for decoding (1) or encoding (6 or 8), each with these
/// entrypoints.
pub proof fn law_limits_are_asked_for_advertised_pairs(
    matrix: &EntrypointMatrix,
    plans: Vec<FamilyPlan>,
    k: int,
    raw: i32,
    entrypoint: i32,
)
    requires
        call_ensures(plan_codecs, (matrix,), plans),
        0 <= k < plans@.len(),
    ensures
        plans@[k].pairs@.contains((VaProfile(raw), entrypoint)) <==> family_codec(
            family_table(),
            raw,
        ) == Some(plans@[k].family.codec@) && (entrypoint == 1 || entrypoint == 6 || entrypoint
            == 8) && advertises(matrix@, raw, entrypoint),
{
    let rows = matrix@;
    assert(plan_views(plans@)[k] == plans@[k]@);
    assert(plan_views(plans@).len() == plans@.len());
    lemma_plans_from_table(rows, family_table(), k);
    let i = choose|i: int|
        0 <= i < family_table().len() && family_plans(rows, family_table())[k] == family_plan(
            rows,
            #[trigger] family_table()[i],
        ) && present_profiles(rows, family_table()[i].1).len() > 0;
    let family = family_table()[i];
    law_forward_lookup_covers_table(i);
    law_lookups_round_trip(family.0, raw);
    law_first_row_decides(rows, raw, entrypoint);
    lemma_present(rows, family.1, raw);
    lemma_sized_pairs(rows, present_profiles(rows, family.1), VaProfile(raw), entrypoint);
}

/// Number of nodes among the first `n` that a device was found on.
pub open spec fn opened_before(probes: Seq<NodeProbe>, n: int) -> nat
    decreases n,
{
    if n <= 0 {
        0
    } else {
        opened_before(probes, n - 1) + if probes[n - 1] == NodeProbe::Opened {
            1nat
        } else {
            0nat
        }
    }
}

/// Number of nodes among the first `n` that exist.
pub open spec fn existing_before(probes: Seq<NodeProbe>, n: int) -> nat
    decreases n,
{
    if n <= 0 {
        0
    } else {
        existing_before(probes, n - 1) + if probes[n - 1] == NodeProbe::Absent {
            0nat
        } else {
            1nat
        }
    }
}

proof fn lemma_opened_before(probes: Seq<NodeProbe>, n: int)
    requires
        0 <= n <= probes.len(),
    ensures
        opened_minors(probes.take(n)).len() == opened_before(probes, n),
        existing_nodes(probes.take(n)) == existing_before(probes, n),
        n > 0 && probes[n - 1] == NodeProbe::Opened ==> opened_minors(
            probes,
        )[opened_before(probes, n - 1) as int] == 128 + n - 1 && opened_before(probes, n - 1)
            < opened_minors(probes).len(),
    decreases n,
{
    if n > 0 {
        lemma_opened_before(probes, n - 1);
        assert(probes.take(n).drop_last() =~= probes.take(n - 1));
        assert(probes.take(n).last() == probes[n - 1]);
        lemma_opened_prefix(probes, n);
    }
}

/// The device with an index is on the node that so many nodes with a device
/// come before: the node `n`, counted from 0, is that of minor `128 + n`.
/// While there are too few devices the next node has to be probed, up to the
/// 64 that there can be; then the index is out of range.
pub proof fn law_devices_are_counted(
    index: u32,
    probes: &[NodeProbe],
    search: DeviceSearch,
    n: int,
)
    requires
        call_ensures(device_path_for_index, (index, probes), search),
        0 <= n < probes@.len(),
    ensures
        probes@[n] == NodeProbe::Opened && opened_before(probes@, n) == index ==> (
        search matches DeviceSearch::Found(path) && path@ == "/dev/dri/"@ + ("renderD"@ + numeral(
            (128 + n) as nat,
            10,
        ))),
        search is Found <==> index < opened_before(probes@, probes@.len() as int),
        search matches DeviceSearch::Probe(path) ==> probes@.len() < 64 && path@ == "/dev/dri/"@ + (
        "renderD"@ + numeral((128 + probes@.len()) as nat, 10)),
        search matches DeviceSearch::OutOfRange(error) ==> probes@.len() >= 64 && error@ == (
        VaErrorView::Init {
            status: 0,
            message: "device_index "@ + numeral(index as nat, 10) + " out of range: only "@
                + numeral(opened_before(probes@, probes@.len() as int), 10)
                + " working VA-API device(s) on this host ("@ + numeral(
                existing_before(probes@, probes@.len() as int),
                10,
            ) + " render node(s) probed)"@,
        }),
{
    lemma_opened_before(probes@, n + 1);
    lemma_opened_before(probes@, probes@.len() as int);
    assert(probes@.take(probes@.len() as int) =~= probes@);
}

/// The path of a render node, and what a device on it is described by: the
/// driver's vendor string, or words for an unknown one, with the node's name;
/// the version; and the node's path.
pub proof fn law_devices_are_described(
    minor: u32,
    path: String,
    vendor: Result<String, VaError>,
    version: (u32, u32),
    codecs: Vec<HwCodecCaps>,
    info: HwDeviceInfo,
)
    requires
        call_ensures(node_path, (minor,), path),
        call_ensures(probe_node, (minor, vendor, version, codecs), info),
    ensures
        path@ == "/dev/dri/"@ + ("renderD"@ + numeral(minor as nat, 10)),
        info.name@ == (match vendor {
            Ok(text) => text@,
            Err(_) => "unknown VA-API driver"@,
        }) + " ("@ + ("renderD"@ + numeral(minor as nat, 10)) + ")"@,
        info.driver_version is None,
        info.api_version matches Some(text) && text@ == "VA-API "@ + numeral(version.0 as nat, 10)
            + "."@ + numeral(version.1 as nat, 10),
        info.total_memory_bytes is None,
        info.extra@.len() == 1,
        info.extra@[0].0@ == "dri_node"@,
        info.extra@[0].1@ == path@,
        info.codecs@ == codecs@,
{
}

/// The report of a host is made up of the reports of its nodes, in order: two
/// runs of nodes report what each of them does, and a single node reports its
/// device or nothing.
pub proof fn law_nodes_report_one_after_another(
    first: Seq<NodeReport>,
    second: Seq<NodeReport>,
    info: HwDeviceInfo,
)
    ensures
        devices(first + second) == devices(first) + devices(second),
        devices(seq![NodeReport::Device(info)]) == seq![info],
        devices(seq![NodeReport::Absent]) == Seq::<HwDeviceInfo>::empty(),
        devices(seq![NodeReport::Failed]) == Seq::<HwDeviceInfo>::empty(),
        devices(seq![NodeReport::NoMatrix]) == Seq::<HwDeviceInfo>::empty(),
    decreases second.len(),
{
    reveal_with_fuel(Seq::filter_map, 2);
    if second.len() == 0 {
        assert(first + second =~= first);
    } else {
        law_nodes_report_one_after_another(first, second.drop_last(), info);
        assert((first + second).drop_last() =~= first + second.drop_last());
        assert(devices(first + second) =~= devices(first) + devices(second));
    }
    let single = seq![NodeReport::Device(info)];
    assert(single.drop_last() =~= seq![]);
    assert(devices(single) =~= seq![info]);
    assert(seq![NodeReport::Absent].drop_last() =~= seq![]);
    assert(seq![NodeReport::Failed].drop_last() =~= seq![]);
    assert(seq![NodeReport::NoMatrix].drop_last() =~= seq![]);
    assert(devices(seq![NodeReport::Absent]) =~= seq![]);
    assert(devices(seq![NodeReport::Failed]) =~= seq![]);
    assert(devices(seq![NodeReport::NoMatrix]) =~= seq![]);
}

/// What is handed out as the report of a host is that report.
pub proof fn law_engine_info_is_the_report(reports: Vec<NodeReport>, found: Vec<HwDeviceInfo>)
    requires
        call_ensures(engine_info, (reports,), found),
    ensures
        found@ == devices(reports@),
{
}

/// The profiles of a family that are present keep the family's order.
pub proof fn law_present_profiles_keep_their_order(
    rows: Seq<MatrixRow>,
    first: Seq<i32>,
    second: Seq<i32>,
)
    ensures
        present_profiles(rows, first + second) == present_profiles(rows, first) + present_profiles(
            rows,
            second,
        ),
    decreases second.len(),
{
    if second.len() == 0 {
        assert(first + second =~= first);
        assert(present_profiles(rows, second) =~= seq![]);
        assert(present_profiles(rows, first) + seq![] =~= present_profiles(rows, first));
    } else {
        law_present_profiles_keep_their_order(rows, first, second.drop_last());
        assert((first + second).drop_last() =~= first + second.drop_last());
        assert(present_profiles(rows, first + second) =~= present_profiles(rows, first)
            + present_profiles(rows, second));
    }
}

/// The largest width and height over all answers: one that was reported, that
/// is not 0, and that no other exceeds; none where none was reported.
pub proof fn law_largest_sizes(answers: &[SizeAnswer], dims: (Option<u32>, Option<u32>))
    requires
        call_ensures(max_dims_across, (answers,), dims),
    ensures
        dims.0 matches Some(w) ==> w > 0 && exists|i: int|
            0 <= i < answers@.len() && (#[trigger] answers@[i]).width == Ok::<
                Option<u32>,
                VaError,
            >(Some(w)),
        dims.1 matches Some(h) ==> h > 0 && exists|i: int|
            0 <= i < answers@.len() && (#[trigger] answers@[i]).height == Ok::<
                Option<u32>,
                VaError,
            >(Some(h)),
        forall|i: int|
            0 <= i < answers@.len() ==> ((#[trigger] answers@[i]).width matches Ok(Some(w)) ==> w
                > 0 ==> (dims.0 matches Some(most) && w <= most)),
        forall|i: int|
            0 <= i < answers@.len() ==> ((#[trigger] answers@[i]).height matches Ok(Some(h)) ==> h
                > 0 ==> (dims.1 matches Some(most) && h <= most)),
{
    let widths = width_limits(answers@);
    let heights = height_limits(answers@);
    assert forall|i: int| 0 <= i < answers@.len() implies widths[i] == known_limit(
        (#[trigger] answers@[i]).width,
    ) && heights[i] == known_limit(answers@[i].height) by {}
    if let Some(w) = dims.0 {
        let i = choose|i: int| 0 <= i < widths.len() && widths[i] == Some(w);
        assert(known_limit(answers@[i].width) == Some(w));
    }
    if let Some(h) = dims.1 {
        let i = choose|i: int| 0 <= i < heights.len() && heights[i] == Some(h);
        assert(known_limit(answers@[i].height) == Some(h));
    }
}

/// The render nodes have the minors 128 to 191.
pub proof fn law_render_minors()
    ensures
        RENDER_MINOR_FIRST == 128 && RENDER_MINOR_LAST == 191 && render_minors() == 64,
{
}

/// The size limits of each entry of a report are the largest that were
/// answered for its own codec.
pub proof fn law_collected_limits_are_the_largest(
    plans: &[FamilyPlan],
    answers: &[Vec<SizeAnswer>],
    codecs: Vec<HwCodecCaps>,
    k: int,
    i: int,
)
    requires
        call_ensures(collect_codecs, (plans, answers), codecs),
        0 <= k < codecs@.len(),
        0 <= i < answers@[k]@.len(),
    ensures
        answers@[k]@[i].width matches Ok(Some(w)) ==> w > 0 ==> (
        codecs@[k].max_width matches Some(most) && w <= most),
        answers@[k]@[i].height matches Ok(Some(h)) ==> h > 0 ==> (
        codecs@[k].max_height matches Some(most) && h <= most),
        codecs@[k].max_width matches Some(w) ==> w > 0 && exists|j: int|
            0 <= j < answers@[k]@.len() && (#[trigger] answers@[k]@[j]).width == Ok::<
                Option<u32>,
                VaError,
            >(Some(w)),
        codecs@[k].max_height matches Some(h) ==> h > 0 && exists|j: int|
            0 <= j < answers@[k]@.len() && (#[trigger] answers@[k]@[j]).height == Ok::<
                Option<u32>,
                VaError,
            >(Some(h)),
{
    assert(is_caps_of(codecs@[k], plans@[k]@, answers@[k]@));
    law_report_gives_the_largest_limits(codecs@[k], plans@[k]@, answers@[k]@);
}

/// The profiles of each entry of a report are named in the order of the codec's
/// family.
pub proof fn law_collected_names_are_in_order(
    matrix: &EntrypointMatrix,
    planned: Vec<FamilyPlan>,
    plans: &[FamilyPlan],
    answers: &[Vec<SizeAnswer>],
    codecs: Vec<HwCodecCaps>,
    k: int,
    j: int,
)
    requires
        call_ensures(plan_codecs, (matrix,), planned),
        plans@ == planned@,
        call_ensures(collect_codecs, (plans, answers), codecs),
        0 <= k < codecs@.len(),
    ensures
        family_profiles(family_table(), codecs@[k].codec@) matches Some(family) && {
            let present = present_profiles(matrix@, family);
            &&& codecs@[k].profiles@.len() == present.len()
            &&& 0 <= j < present.len() ==> codecs@[k].profiles@[j]@ == present[j].name_text()
        },
{
    let rows = matrix@;
    assert(is_caps_of(codecs@[k], plans@[k]@, answers@[k]@));
    assert(plan_views(plans@)[k] == plans@[k]@);
    lemma_plans_from_table(rows, family_table(), k);
    let i = choose|i: int|
        0 <= i < family_table().len() && family_plans(rows, family_table())[k] == family_plan(
            rows,
            #[trigger] family_table()[i],
        ) && present_profiles(rows, family_table()[i].1).len() > 0;
    law_forward_lookup_covers_table(i);
    let present = present_profiles(rows, family_table()[i].1);
    let names = present.map_values(|profile: VaProfile| profile.name_text());
    assert(texts_of(codecs@[k].profiles@) == names);
    assert(texts_of(codecs@[k].profiles@).len() == codecs@[k].profiles@.len());
    if 0 <= j < present.len() {
        assert(texts_of(codecs@[k].profiles@)[j] == codecs@[k].profiles@[j]@);
        assert(names[j] == present[j].name_text());
    }
}

/// An entry of a report takes its codec, its flags and the names of its
/// profiles from its plan.
pub proof fn law_entries_follow_their_plans(
    plan: &FamilyPlan,
    answers: &[SizeAnswer],
    caps: HwCodecCaps,
    j: int,
)
    requires
        call_ensures(FamilyPlan::caps, (plan, answers), caps),
    ensures
        caps.codec@ == plan.family.codec@,
        caps.decode == plan.decode && caps.encode == plan.encode,
        caps.profiles@.len() == plan.present@.len(),
        0 <= j < plan.present@.len() ==> caps.profiles@[j]@ == plan.present@[j].name_text(),
{
    let names = plan.present@.map_values(|profile: VaProfile| profile.name_text());
    assert(texts_of(caps.profiles@) == names);
    assert(texts_of(caps.profiles@).len() == caps.profiles@.len());
    if 0 <= j < plan.present@.len() {
        assert(texts_of(caps.profiles@)[j] == caps.profiles@[j]@);
        assert(names[j] == plan.present@[j].name_text());
    }
}

} // verus!
