//! Codec families: which VA-API profiles belong to which codec id.

use vstd::prelude::*;

use crate::matrix::advertises;
use crate::matrix::any_row_supports;
use crate::matrix::holds_code;
use crate::matrix::law_any_profile_decides;
use crate::matrix::EntrypointMatrix;
use crate::matrix::MatrixRow;
use crate::matrix::VaProfile;
use crate::sys::entrypoint::VAEntrypointEncSlice;
use crate::sys::entrypoint::VAEntrypointEncSliceLP;
use crate::sys::entrypoint::VAEntrypointVLD;
use crate::sys::profile;
use crate::text::same_text;

verus! {

/// One codec with its profiles in ascending order of capability.
#[derive(Copy, Clone, Debug)]
pub struct CodecFamily {
    /// The codec id.
    pub codec: &'static str,
    /// The profiles; the last one is the headline profile.
    pub profiles: &'static [i32],
}

/// A codec id with its profiles.
pub type FamilyRow = (Seq<char>, Seq<i32>);

impl View for CodecFamily {
    type V = FamilyRow;

    open spec fn view(&self) -> FamilyRow {
        (self.codec@, self.profiles@)
    }
}

/// Every codec family, in registration order.
pub open spec fn family_table() -> Seq<FamilyRow> {
    seq![
        (
            "h264"@,
            seq![
                profile::VAProfileH264ConstrainedBaseline,
                profile::VAProfileH264Baseline,
                profile::VAProfileH264Main,
                profile::VAProfileH264High,
            ],
        ),
        (
            "hevc"@,
            seq![
                profile::VAProfileHEVCMain,
                profile::VAProfileHEVCMain10,
                profile::VAProfileHEVCMain12,
                profile::VAProfileHEVCMain444,
                profile::VAProfileHEVCMain444_10,
                profile::VAProfileHEVCMain444_12,
            ],
        ),
        ("av1"@, seq![profile::VAProfileAV1Profile0, profile::VAProfileAV1Profile1]),
        ("vp8"@, seq![profile::VAProfileVP8Version0_3]),
        ("vp9"@, seq![profile::VAProfileVP9Profile0, profile::VAProfileVP9Profile2]),
        ("mpeg2"@, seq![profile::VAProfileMPEG2Simple, profile::VAProfileMPEG2Main]),
        (
            "vc1"@,
            seq![
                profile::VAProfileVC1Simple,
                profile::VAProfileVC1Main,
                profile::VAProfileVC1Advanced,
            ],
        ),
        ("jpeg"@, seq![profile::VAProfileJPEGBaseline]),
    ]
}

/// The profiles of the first family named `codec_id`.
pub open spec fn family_profiles(table: Seq<FamilyRow>, codec_id: Seq<char>) -> Option<Seq<i32>>
    decreases table.len(),
{
    if table.len() == 0 {
        None
    } else if table[0].0 == codec_id {
        Some(table[0].1)
    } else {
        family_profiles(table.skip(1), codec_id)
    }
}

/// The codec id of the first family that holds profile `raw`.
pub open spec fn family_codec(table: Seq<FamilyRow>, raw: i32) -> Option<Seq<char>>
    decreases table.len(),
{
    if table.len() == 0 {
        None
    } else if table[0].1.contains(raw) {
        Some(table[0].0)
    } else {
        family_codec(table.skip(1), raw)
    }
}

/// The views of the families, in order.
pub open spec fn rows_of(families: Seq<CodecFamily>) -> Seq<FamilyRow> {
    families.map_values(|family: CodecFamily| family@)
}

/// Every codec family, in registration order: h264, hevc, av1, vp8, vp9,
/// mpeg2, vc1, jpeg.
pub fn known_codecs() -> (families: Vec<CodecFamily>)
    ensures
        rows_of(families@) == family_table(),
{
    let mut families: Vec<CodecFamily> = Vec::new();
    families.push(
        CodecFamily {
            codec: "h264",
            profiles: &[
                profile::VAProfileH264ConstrainedBaseline,
                profile::VAProfileH264Baseline,
                profile::VAProfileH264Main,
                profile::VAProfileH264High,
            ],
        },
    );
    families.push(
        CodecFamily {
            codec: "hevc",
            profiles: &[
                profile::VAProfileHEVCMain,
                profile::VAProfileHEVCMain10,
                profile::VAProfileHEVCMain12,
                profile::VAProfileHEVCMain444,
                profile::VAProfileHEVCMain444_10,
                profile::VAProfileHEVCMain444_12,
            ],
        },
    );
    families.push(
        CodecFamily {
            codec: "av1",
            profiles: &[profile::VAProfileAV1Profile0, profile::VAProfileAV1Profile1],
        },
    );
    families.push(CodecFamily { codec: "vp8", profiles: &[profile::VAProfileVP8Version0_3] });
    families.push(
        CodecFamily {
            codec: "vp9",
            profiles: &[profile::VAProfileVP9Profile0, profile::VAProfileVP9Profile2],
        },
    );
    families.push(
        CodecFamily {
            codec: "mpeg2",
            profiles: &[profile::VAProfileMPEG2Simple, profile::VAProfileMPEG2Main],
        },
    );
    families.push(
        CodecFamily {
            codec: "vc1",
            profiles: &[
                profile::VAProfileVC1Simple,
                profile::VAProfileVC1Main,
                profile::VAProfileVC1Advanced,
            ],
        },
    );
    families.push(CodecFamily { codec: "jpeg", profiles: &[profile::VAProfileJPEGBaseline] });
    proof {
        let table = family_table();
        assert(families@[0].profiles@ =~= table[0].1);
        assert(families@[1].profiles@ =~= table[1].1);
        assert(families@[2].profiles@ =~= table[2].1);
        assert(families@[3].profiles@ =~= table[3].1);
        assert(families@[4].profiles@ =~= table[4].1);
        assert(families@[5].profiles@ =~= table[5].1);
        assert(families@[6].profiles@ =~= table[6].1);
        assert(families@[7].profiles@ =~= table[7].1);
        assert(rows_of(families@) =~= table);
    }
    families
}

/// The profiles of a codec, in ascending order of capability; `None` for an
/// unknown codec id.
pub fn codec_profiles(codec_id: &str) -> (profiles: Option<&'static [i32]>)
    ensures
        match profiles {
            Some(found) => family_profiles(family_table(), codec_id@) == Some(found@),
            None => family_profiles(family_table(), codec_id@) is None,
        },
{
    let families: Vec<CodecFamily> = known_codecs();
    let ghost table = family_table();
    let mut i: usize = 0;
    assert(table.skip(0) =~= table);
    while i < families.len()
        invariant
            i <= families@.len(),
            table == family_table(),
            rows_of(families@) == table,
            family_profiles(table.skip(i as int), codec_id@) == family_profiles(table, codec_id@),
        decreases families@.len() - i,
    {
        let family: CodecFamily = families[i];
        assert(table.skip(i as int)[0] == family@);
        if same_text(family.codec, codec_id) {
            return Some(family.profiles);
        }
        assert(table.skip(i as int).skip(1) =~= table.skip(i + 1));
        i += 1;
    }
    None
}

/// The headline profile of a codec: the last and most capable of its family.
pub fn headline_profile(codec_id: &str) -> (headline: Option<VaProfile>)
    ensures
        match headline {
            Some(found) => family_profiles(family_table(), codec_id@) matches Some(profiles)
                && profiles.len() > 0 && found == VaProfile(profiles.last()),
            None => family_profiles(family_table(), codec_id@) is None,
        },
{
    match codec_profiles(codec_id) {
        Some(profiles) => {
            proof {
                law_no_empty_family(codec_id@);
            }
            Some(VaProfile(profiles[profiles.len() - 1]))
        },
        None => None,
    }
}

/// The codec id of the family that holds profile `raw`; `None` for a value
/// that no family holds.
pub fn codec_id_for_profile(raw: i32) -> (codec_id: Option<&'static str>)
    ensures
        match codec_id {
            Some(found) => family_codec(family_table(), raw) == Some(found@),
            None => family_codec(family_table(), raw) is None,
        },
{
    let families: Vec<CodecFamily> = known_codecs();
    let ghost table = family_table();
    let mut i: usize = 0;
    assert(table.skip(0) =~= table);
    while i < families.len()
        invariant
            i <= families@.len(),
            table == family_table(),
            rows_of(families@) == table,
            family_codec(table.skip(i as int), raw) == family_codec(table, raw),
        decreases families@.len() - i,
    {
        let family: CodecFamily = families[i];
        assert(table.skip(i as int)[0] == family@);
        if holds_code(family.profiles, raw) {
            return Some(family.codec);
        }
        assert(table.skip(i as int).skip(1) =~= table.skip(i + 1));
        i += 1;
    }
    None
}

/// [`codec_id_for_profile`] on a typed profile.
pub fn codec_id_for_va_profile(profile: VaProfile) -> (codec_id: Option<&'static str>)
    ensures
        match codec_id {
            Some(found) => family_codec(family_table(), profile.0) == Some(found@),
            None => family_codec(family_table(), profile.0) is None,
        },
{
    codec_id_for_profile(profile.raw())
}

/// A profile of the codec is advertised with `entrypoint`.
pub open spec fn family_supports(
    rows: Seq<MatrixRow>,
    codec_id: Seq<char>,
    entrypoint: i32,
) -> bool {
    match family_profiles(family_table(), codec_id) {
        Some(profiles) => any_row_supports(rows, profiles, entrypoint),
        None => false,
    }
}

/// Whether the driver decodes the codec: one of its profiles is advertised
/// with `VAEntrypointVLD`.
pub fn codec_decode_supported(matrix: &EntrypointMatrix, codec_id: &str) -> (supported: bool)
    ensures
        supported == family_supports(matrix@, codec_id@, VAEntrypointVLD),
{
    match codec_profiles(codec_id) {
        Some(profiles) => matrix.any_supports(profiles, VAEntrypointVLD),
        None => false,
    }
}

/// Whether the driver encodes the codec: one of its profiles is advertised
/// with `VAEntrypointEncSlice` or `VAEntrypointEncSliceLP`.
pub fn codec_encode_supported(matrix: &EntrypointMatrix, codec_id: &str) -> (supported: bool)
    ensures
        supported == (family_supports(matrix@, codec_id@, VAEntrypointEncSlice) || family_supports(
            matrix@,
            codec_id@,
            VAEntrypointEncSliceLP,
        )),
{
    match codec_profiles(codec_id) {
        Some(profiles) => matrix.any_supports(profiles, VAEntrypointEncSlice)
            || matrix.any_supports(profiles, VAEntrypointEncSliceLP),
        None => false,
    }
}

/// Whether this host decodes the codec, given the matrix of its default
/// render node; `None` where the node is absent, does not initialise or
/// refuses the query.
pub fn host_supports_codec_decode(codec_id: &str, host: Option<&EntrypointMatrix>) -> (supported:
    bool)
    ensures
        supported == match host {
            Some(matrix) => family_supports(matrix@, codec_id@, VAEntrypointVLD),
            None => false,
        },
{
    match host {
        Some(matrix) => codec_decode_supported(matrix, codec_id),
        None => false,
    }
}

/// The row of the table that a codec id or a profile was found in.
proof fn lemma_table_rows(table: Seq<FamilyRow>)
    ensures
        forall|codec_id: Seq<char>|
            (#[trigger] family_profiles(table, codec_id)) matches Some(profiles) ==> exists|i: int|
                0 <= i < table.len() && #[trigger] table[i] == (codec_id, profiles),
        forall|raw: i32|
            (#[trigger] family_codec(table, raw)) matches Some(codec_id) ==> exists|i: int|
                0 <= i < table.len() && (#[trigger] table[i]).0 == codec_id && table[i].1.contains(
                    raw,
                ),
    decreases table.len(),
{
    if table.len() > 0 {
        let rest = table.skip(1);
        lemma_table_rows(rest);
        assert forall|codec_id: Seq<char>|
            (#[trigger] family_profiles(table, codec_id)) matches Some(profiles) implies exists|
            i: int,
        |
            0 <= i < table.len() && #[trigger] table[i] == (
                codec_id,
                family_profiles(table, codec_id)->0,
            ) by {
            let profiles = family_profiles(table, codec_id)->0;
            if table[0].0 == codec_id {
                assert(table[0] == (codec_id, profiles));
            } else {
                assert(family_profiles(rest, codec_id) == Some(profiles));
                let i = choose|i: int| 0 <= i < rest.len() && rest[i] == (codec_id, profiles);
                assert(table[i + 1] == (codec_id, profiles));
            }
        }
        assert forall|raw: i32|
            (#[trigger] family_codec(table, raw)) matches Some(codec_id) implies exists|i: int|
            0 <= i < table.len() && (#[trigger] table[i]).0 == family_codec(table, raw)->0
                && table[i].1.contains(raw) by {
            let codec_id = family_codec(table, raw)->0;
            if table[0].1.contains(raw) {
                assert(table[0].0 == codec_id);
            } else {
                assert(family_codec(rest, raw) == Some(codec_id));
                let i = choose|i: int|
                    0 <= i < rest.len() && rest[i].0 == codec_id && rest[i].1.contains(raw);
                assert(table[i + 1].0 == codec_id && table[i + 1].1.contains(raw));
            }
        }
    }
}

/// The profiles of a codec stand in a row of the table under its id.
pub proof fn law_family_is_a_row(codec_id: Seq<char>)
    requires
        family_profiles(family_table(), codec_id) is Some,
    ensures
        exists|i: int|
            0 <= i < family_table().len() && #[trigger] family_table()[i] == (
                codec_id,
                family_profiles(family_table(), codec_id)->0,
            ),
{
    lemma_table_rows(family_table());
}

/// No codec family is empty, so every known codec has a headline profile.
pub proof fn law_no_empty_family(codec_id: Seq<char>)
    ensures
        family_profiles(family_table(), codec_id) matches Some(profiles) ==> profiles.len() > 0,
{
    lemma_table_rows(family_table());
}

/// The family that a profile index belongs to is the only one.
proof fn lemma_families_disjoint()
    ensures
        forall|i: int, j: int, raw: i32|
            0 <= i < j < family_table().len() && #[trigger] family_table()[i].1.contains(raw)
                ==> !#[trigger] family_table()[j].1.contains(raw),
{
    let table = family_table();
    assert(table[0].1 =~= seq![13i32, 5, 6, 7]);
    assert(table[1].1 =~= seq![17i32, 18, 23, 26, 27, 28]);
    assert(table[2].1 =~= seq![32i32, 33]);
    assert(table[3].1 =~= seq![14i32]);
    assert(table[4].1 =~= seq![19i32, 21]);
    assert(table[5].1 =~= seq![0i32, 1]);
    assert(table[6].1 =~= seq![8i32, 9, 10]);
    assert(table[7].1 =~= seq![12i32]);
    assert forall|i: int, j: int, raw: i32|
        0 <= i < j < table.len() && #[trigger] table[i].1.contains(
            raw,
        ) implies !#[trigger] table[j].1.contains(raw) by {
        let a = choose|a: int| 0 <= a < table[i].1.len() && table[i].1[a] == raw;
        assert(0 <= i < 8 && 0 <= j < 8);
        if table[j].1.contains(raw) {
            let b = choose|b: int| 0 <= b < table[j].1.len() && table[j].1[b] == raw;
            assert(0 <= a < 6 && 0 <= b < 6);
            assert(table[i].1[a] != table[j].1[b]);
        }
    }
}

/// The codec ids of the table differ pairwise.
proof fn lemma_codec_ids_distinct()
    ensures
        forall|i: int, j: int|
            0 <= i < j < family_table().len() ==> (#[trigger] family_table()[i]).0 != (
            #[trigger] family_table()[j]).0,
{
    reveal_strlit("h264");
    reveal_strlit("hevc");
    reveal_strlit("av1");
    reveal_strlit("vp8");
    reveal_strlit("vp9");
    reveal_strlit("mpeg2");
    reveal_strlit("vc1");
    reveal_strlit("jpeg");
    let table = family_table();
    assert forall|i: int, j: int| 0 <= i < j < table.len() implies (#[trigger] table[i]).0 != (
    #[trigger] table[j]).0 by {
        assert(table.len() == 8);
        let a = table[i].0;
        let b = table[j].0;
        assert(a.len() != b.len() || a[0] != b[0] || a[1] != b[1] || a[2] != b[2]);
    }
}

/// Both lookups find row `i` of a table in which no earlier row has the same
/// codec id, or the same profile.
proof fn lemma_lookup_finds_row(table: Seq<FamilyRow>, i: int, raw: i32)
    requires
        0 <= i < table.len(),
    ensures
        (forall|k: int| 0 <= k < i ==> (#[trigger] table[k]).0 != table[i].0) ==> family_profiles(
            table,
            table[i].0,
        ) == Some(table[i].1),
        table[i].1.contains(raw) && (forall|k: int|
            0 <= k < i ==> !(#[trigger] table[k]).1.contains(raw)) ==> family_codec(table, raw)
            == Some(table[i].0),
    decreases i,
{
    if i > 0 {
        let rest = table.skip(1);
        lemma_lookup_finds_row(rest, i - 1, raw);
        assert(rest[i - 1] == table[i]);
        assert(forall|k: int| 0 <= k < i - 1 ==> #[trigger] rest[k] == table[k + 1]);
    }
}

/// Every codec of the table is found under its id, with its own profiles.
pub proof fn law_forward_lookup_covers_table(i: int)
    requires
        0 <= i < family_table().len(),
    ensures
        family_profiles(family_table(), family_table()[i].0) == Some(family_table()[i].1),
{
    lemma_codec_ids_distinct();
    lemma_lookup_finds_row(family_table(), i, 0);
}

/// Every profile of the table leads back to the codec whose row holds it.
pub proof fn law_reverse_lookup_covers_table(i: int, raw: i32)
    requires
        0 <= i < family_table().len(),
        family_table()[i].1.contains(raw),
    ensures
        family_codec(family_table(), raw) == Some(family_table()[i].0),
{
    lemma_families_disjoint();
    lemma_lookup_finds_row(family_table(), i, raw);
}

/// No profile belongs to two families.
pub proof fn law_families_do_not_collide(i: int, j: int, raw: i32)
    requires
        0 <= i < family_table().len(),
        0 <= j < family_table().len(),
        family_table()[i].1.contains(raw),
        family_table()[j].1.contains(raw),
    ensures
        i == j,
{
    lemma_families_disjoint();
}

/// The two lookups are inverse: a profile maps to a codec id exactly when the
/// profiles of that codec id hold it.
pub proof fn law_lookups_round_trip(codec_id: Seq<char>, raw: i32)
    ensures
        family_codec(family_table(), raw) == Some(codec_id) <==> (family_profiles(
            family_table(),
            codec_id,
        ) matches Some(profiles) && profiles.contains(raw)),
{
    let table = family_table();
    lemma_table_rows(table);
    if family_codec(table, raw) == Some(codec_id) {
        let i = choose|i: int|
            0 <= i < table.len() && (#[trigger] table[i]).0 == codec_id && table[i].1.contains(raw);
        law_forward_lookup_covers_table(i);
    }
    if let Some(profiles) = family_profiles(table, codec_id) {
        if profiles.contains(raw) {
            let i = choose|i: int| 0 <= i < table.len() && table[i] == (codec_id, profiles);
            law_reverse_lookup_covers_table(i, raw);
        }
    }
}

/// `VAProfileNone` belongs to no codec, and neither does a value above every
/// listed profile.
pub proof fn law_unlisted_profiles_have_no_codec(raw: i32)
    requires
        raw < 0 || raw > profile::VAProfileAV1Profile1,
    ensures
        family_codec(family_table(), raw) is None,
{
    let table = family_table();
    lemma_table_rows(table);
    if let Some(codec_id) = family_codec(table, raw) {
        let i = choose|i: int|
            0 <= i < table.len() && (#[trigger] table[i]).0 == codec_id && table[i].1.contains(raw);
        let a = choose|a: int| 0 <= a < table[i].1.len() && table[i].1[a] == raw;
        assert(table.len() == 8);
        assert(0 <= i < 8 && 0 <= a < 6);
    }
}

/// The profiles of each codec by their numbers in `va.h`, most capable last;
/// no other codec has any.
pub proof fn law_codecs_have_their_header_profiles(codec_id: Seq<char>)
    ensures
        family_profiles(family_table(), codec_id) == if codec_id == "h264"@ {
            Some(seq![13i32, 5, 6, 7])
        } else if codec_id == "hevc"@ {
            Some(seq![17i32, 18, 23, 26, 27, 28])
        } else if codec_id == "av1"@ {
            Some(seq![32i32, 33])
        } else if codec_id == "vp8"@ {
            Some(seq![14i32])
        } else if codec_id == "vp9"@ {
            Some(seq![19i32, 21])
        } else if codec_id == "mpeg2"@ {
            Some(seq![0i32, 1])
        } else if codec_id == "vc1"@ {
            Some(seq![8i32, 9, 10])
        } else if codec_id == "jpeg"@ {
            Some(seq![12i32])
        } else {
            None
        },
{
    let table = family_table();
    lemma_table_rows(table);
    lemma_codec_ids_distinct();
    assert(table[0].1 =~= seq![13i32, 5, 6, 7]);
    assert(table[1].1 =~= seq![17i32, 18, 23, 26, 27, 28]);
    assert(table[2].1 =~= seq![32i32, 33]);
    assert(table[3].1 =~= seq![14i32]);
    assert(table[4].1 =~= seq![19i32, 21]);
    assert(table[5].1 =~= seq![0i32, 1]);
    assert(table[6].1 =~= seq![8i32, 9, 10]);
    assert(table[7].1 =~= seq![12i32]);
    assert(table[0].0 == "h264"@ && table[1].0 == "hevc"@ && table[2].0 == "av1"@ && table[3].0
        == "vp8"@ && table[4].0 == "vp9"@ && table[5].0 == "mpeg2"@ && table[6].0 == "vc1"@
        && table[7].0 == "jpeg"@);
    assert(table.len() == 8);
    assert forall|i: int| 0 <= i < 8 implies family_profiles(table, (#[trigger] table[i]).0)
        == Some(table[i].1) by {
        law_forward_lookup_covers_table(i);
    }
    if let Some(profiles) = family_profiles(table, codec_id) {
        let i = choose|i: int| 0 <= i < table.len() && table[i] == (codec_id, profiles);
        assert(0 <= i < 8);
    }
}

/// Every profile of `va.h` belongs to the codec that its name spells; every
/// other number belongs to none.
pub proof fn law_profiles_belong_to_their_codecs(raw: i32)
    ensures
        family_codec(family_table(), raw) == match raw {
            5 | 6 | 7 | 13 => Some("h264"@),
            17 | 18 | 23 | 26 | 27 | 28 => Some("hevc"@),
            32 | 33 => Some("av1"@),
            14 => Some("vp8"@),
            19 | 21 => Some("vp9"@),
            0 | 1 => Some("mpeg2"@),
            8 | 9 | 10 => Some("vc1"@),
            12 => Some("jpeg"@),
            _ => None,
        },
{
    let codec_id = match raw {
        5 | 6 | 7 | 13 => "h264"@,
        17 | 18 | 23 | 26 | 27 | 28 => "hevc"@,
        32 | 33 => "av1"@,
        14 => "vp8"@,
        19 | 21 => "vp9"@,
        0 | 1 => "mpeg2"@,
        8 | 9 | 10 => "vc1"@,
        _ => "jpeg"@,
    };
    lemma_codec_ids_distinct();
    let table = family_table();
    assert(table[0].0 == "h264"@ && table[1].0 == "hevc"@ && table[2].0 == "av1"@ && table[3].0
        == "vp8"@ && table[4].0 == "vp9"@ && table[5].0 == "mpeg2"@ && table[6].0 == "vc1"@
        && table[7].0 == "jpeg"@);
    law_codecs_have_their_header_profiles(codec_id);
    law_lookups_round_trip(codec_id, raw);
    let profiles = family_profiles(table, codec_id)->0;
    if let Some(found) = family_codec(table, raw) {
        law_codecs_have_their_header_profiles(found);
        law_lookups_round_trip(found, raw);
        let listed = family_profiles(table, found)->0;
        let k = choose|k: int| 0 <= k < listed.len() && listed[k] == raw;
        assert(0 <= k < 6);
    }
    assert(profiles.len() > 0);
    assert(profiles[0] == raw ==> profiles.contains(raw));
    assert(profiles.len() > 1 && profiles[1] == raw ==> profiles.contains(raw));
    assert(profiles.len() > 2 && profiles[2] == raw ==> profiles.contains(raw));
    assert(profiles.len() > 3 && profiles[3] == raw ==> profiles.contains(raw));
    assert(profiles.len() > 4 && profiles[4] == raw ==> profiles.contains(raw));
    assert(profiles.len() > 5 && profiles[5] == raw ==> profiles.contains(raw));
}

/// The profile constants have the numbers of `va.h`.
pub proof fn law_profile_numbers()
    ensures
        profile::VAProfileNone == -1,
        profile::VAProfileMPEG2Simple == 0 && profile::VAProfileMPEG2Main == 1,
        profile::VAProfileH264Baseline == 5 && profile::VAProfileH264Main == 6,
        profile::VAProfileH264High == 7 && profile::VAProfileH264ConstrainedBaseline == 13,
        profile::VAProfileVC1Simple == 8 && profile::VAProfileVC1Main == 9,
        profile::VAProfileVC1Advanced == 10 && profile::VAProfileJPEGBaseline == 12,
        profile::VAProfileVP8Version0_3 == 14,
        profile::VAProfileHEVCMain == 17 && profile::VAProfileHEVCMain10 == 18,
        profile::VAProfileHEVCMain12 == 23 && profile::VAProfileHEVCMain444 == 26,
        profile::VAProfileHEVCMain444_10 == 27 && profile::VAProfileHEVCMain444_12 == 28,
        profile::VAProfileVP9Profile0 == 19 && profile::VAProfileVP9Profile2 == 21,
        profile::VAProfileAV1Profile0 == 32 && profile::VAProfileAV1Profile1 == 33,
{
}

/// A driver decodes a codec exactly when it advertises one of the codec's
/// profiles with the entrypoint for decoding (1), and encodes it exactly when
/// it advertises one with an entrypoint for encoding (6 or 8).
pub proof fn law_support_is_an_advertised_profile(
    rows: Seq<MatrixRow>,
    codec_id: Seq<char>,
    entrypoint: i32,
)
    ensures
        family_supports(rows, codec_id, entrypoint) <==> exists|raw: i32| #[trigger]
            advertises(rows, raw, entrypoint) && family_codec(family_table(), raw) == Some(
                codec_id,
            ),
        VAEntrypointVLD == 1 && VAEntrypointEncSlice == 6 && VAEntrypointEncSliceLP == 8,
{
    assert forall|raw: i32| #[trigger] advertises(rows, raw, entrypoint) implies (family_codec(
        family_table(),
        raw,
    ) == Some(codec_id) <==> (family_profiles(family_table(), codec_id) matches Some(profiles)
        && profiles.contains(raw))) by {
        law_lookups_round_trip(codec_id, raw);
    }
    if let Some(profiles) = family_profiles(family_table(), codec_id) {
        law_any_profile_decides(rows, profiles, entrypoint);
    }
}

/// The codec of a profile, as its name in `va.h` spells it.
pub proof fn law_profiles_find_their_codecs(
    raw: i32,
    found: Option<&'static str>,
    typed: Option<&'static str>,
)
    requires
        call_ensures(codec_id_for_profile, (raw,), found),
        call_ensures(codec_id_for_va_profile, (VaProfile(raw),), typed),
    ensures
        match found {
            Some(codec) => Some(codec@),
            None => None,
        } == match raw {
            5 | 6 | 7 | 13 => Some("h264"@),
            17 | 18 | 23 | 26 | 27 | 28 => Some("hevc"@),
            32 | 33 => Some("av1"@),
            14 => Some("vp8"@),
            19 | 21 => Some("vp9"@),
            0 | 1 => Some("mpeg2"@),
            8 | 9 | 10 => Some("vc1"@),
            12 => Some("jpeg"@),
            _ => None,
        },
        match typed {
            Some(codec) => Some(codec@),
            None => None,
        } == match raw {
            5 | 6 | 7 | 13 => Some("h264"@),
            17 | 18 | 23 | 26 | 27 | 28 => Some("hevc"@),
            32 | 33 => Some("av1"@),
            14 => Some("vp8"@),
            19 | 21 => Some("vp9"@),
            0 | 1 => Some("mpeg2"@),
            8 | 9 | 10 => Some("vc1"@),
            12 => Some("jpeg"@),
            _ => None,
        },
{
    law_profiles_belong_to_their_codecs(raw);
}

/// The profiles of a codec and its headline, the last of them.
pub proof fn law_codecs_find_their_profiles(
    codec_id: &str,
    profiles: Option<&'static [i32]>,
    headline: Option<VaProfile>,
)
    requires
        call_ensures(codec_profiles, (codec_id,), profiles),
        call_ensures(headline_profile, (codec_id,), headline),
    ensures
        codec_id@ == "h264"@ ==> profiles->0@ == seq![13i32, 5, 6, 7] && headline == Some(
            VaProfile(7),
        ),
        codec_id@ == "hevc"@ ==> profiles->0@ == seq![17i32, 18, 23, 26, 27, 28] && headline
            == Some(VaProfile(28)),
        codec_id@ == "av1"@ ==> profiles->0@ == seq![32i32, 33] && headline == Some(VaProfile(33)),
        codec_id@ == "vp8"@ ==> profiles->0@ == seq![14i32] && headline == Some(VaProfile(14)),
        codec_id@ == "vp9"@ ==> profiles->0@ == seq![19i32, 21] && headline == Some(VaProfile(21)),
        codec_id@ == "mpeg2"@ ==> profiles->0@ == seq![0i32, 1] && headline == Some(VaProfile(1)),
        codec_id@ == "vc1"@ ==> profiles->0@ == seq![8i32, 9, 10] && headline == Some(
            VaProfile(10),
        ),
        codec_id@ == "jpeg"@ ==> profiles->0@ == seq![12i32] && headline == Some(VaProfile(12)),
        profiles is Some <==> headline is Some,
        profiles is Some <==> codec_id@ == "h264"@ || codec_id@ == "hevc"@ || codec_id@ == "av1"@
            || codec_id@ == "vp8"@ || codec_id@ == "vp9"@ || codec_id@ == "mpeg2"@ || codec_id@
            == "vc1"@ || codec_id@ == "jpeg"@,
{
    lemma_codec_ids_distinct();
    let table = family_table();
    assert(table[0].0 == "h264"@ && table[1].0 == "hevc"@ && table[2].0 == "av1"@ && table[3].0
        == "vp8"@ && table[4].0 == "vp9"@ && table[5].0 == "mpeg2"@ && table[6].0 == "vc1"@
        && table[7].0 == "jpeg"@);
    law_codecs_have_their_header_profiles(codec_id@);
}

/// No two codecs have the same id.
pub proof fn law_codec_names_differ()
    ensures
        forall|i: int, j: int|
            0 <= i < j < 8 ==> (#[trigger] family_table()[i]).0 != (#[trigger] family_table()[j]).0,
{
    lemma_codec_ids_distinct();
}

/// The codec families in their order of registration.
pub proof fn law_known_codecs(families: Vec<CodecFamily>)
    requires
        call_ensures(known_codecs, (), families),
    ensures
        families@.len() == 8,
        families@[0].codec@ == "h264"@ && families@[0].profiles@ == seq![13i32, 5, 6, 7],
        families@[1].codec@ == "hevc"@ && families@[1].profiles@ == seq![17i32, 18, 23, 26, 27, 28],
        families@[2].codec@ == "av1"@ && families@[2].profiles@ == seq![32i32, 33],
        families@[3].codec@ == "vp8"@ && families@[3].profiles@ == seq![14i32],
        families@[4].codec@ == "vp9"@ && families@[4].profiles@ == seq![19i32, 21],
        families@[5].codec@ == "mpeg2"@ && families@[5].profiles@ == seq![0i32, 1],
        families@[6].codec@ == "vc1"@ && families@[6].profiles@ == seq![8i32, 9, 10],
        families@[7].codec@ == "jpeg"@ && families@[7].profiles@ == seq![12i32],
{
    let rows = rows_of(families@);
    assert(rows.len() == families@.len());
    assert(rows[0] == families@[0]@ && rows[1] == families@[1]@ && rows[2] == families@[2]@
        && rows[3] == families@[3]@ && rows[4] == families@[4]@ && rows[5] == families@[5]@
        && rows[6] == families@[6]@ && rows[7] == families@[7]@);
}

/// A driver decodes a codec exactly where it advertises one of its profiles
/// with the entrypoint 1, and encodes it where it does so with 6 or 8. A host
/// without a matrix decodes nothing.
pub proof fn law_codec_checks_look_for_an_advertised_profile(
    matrix: &EntrypointMatrix,
    codec_id: &str,
    decodes: bool,
    encodes: bool,
    host: Option<&EntrypointMatrix>,
    host_decodes: bool,
)
    requires
        call_ensures(codec_decode_supported, (matrix, codec_id), decodes),
        call_ensures(codec_encode_supported, (matrix, codec_id), encodes),
        call_ensures(host_supports_codec_decode, (codec_id, host), host_decodes),
    ensures
        decodes <==> exists|raw: i32| #[trigger]
            advertises(matrix@, raw, 1) && family_codec(family_table(), raw) == Some(codec_id@),
        encodes <==> ((exists|raw: i32| #[trigger]
            advertises(matrix@, raw, 6) && family_codec(family_table(), raw) == Some(codec_id@))
            || (exists|raw: i32| #[trigger]
            advertises(matrix@, raw, 8) && family_codec(family_table(), raw) == Some(codec_id@))),
        host is None ==> !host_decodes,
        host matches Some(found) ==> (host_decodes <==> exists|raw: i32| #[trigger]
            advertises(found@, raw, 1) && family_codec(family_table(), raw) == Some(codec_id@)),
{
    law_support_is_an_advertised_profile(matrix@, codec_id@, 1);
    law_support_is_an_advertised_profile(matrix@, codec_id@, 6);
    law_support_is_an_advertised_profile(matrix@, codec_id@, 8);
    if let Some(found) = host {
        law_support_is_an_advertised_profile(found@, codec_id@, 1);
    }
}

} // verus!
