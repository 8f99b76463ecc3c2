//! Profiles, and the matrix of profiles and entrypoints that a driver
//! advertises.

use vstd::prelude::*;

use crate::sys::profile;
use crate::text::decimal;
use crate::text::decimal_text;
use crate::text::joined;

verus! {

/// VA-API profile identifier: the value that the driver speaks.
#[derive(Copy, Clone, Debug, PartialEq, Eq, Structural)]
pub struct VaProfile(pub i32);

impl VaProfile {
    /// The name of a profile: its `va.h` name where it is one of
    /// [`crate::sys::profile`], its number otherwise.
    pub open spec fn name_text(self) -> Seq<char> {
        match self.0 {
            profile::VAProfileNone => "VAProfileNone"@,
            profile::VAProfileMPEG2Simple => "VAProfileMPEG2Simple"@,
            profile::VAProfileMPEG2Main => "VAProfileMPEG2Main"@,
            profile::VAProfileH264Baseline => "VAProfileH264Baseline"@,
            profile::VAProfileH264Main => "VAProfileH264Main"@,
            profile::VAProfileH264High => "VAProfileH264High"@,
            profile::VAProfileVC1Simple => "VAProfileVC1Simple"@,
            profile::VAProfileVC1Main => "VAProfileVC1Main"@,
            profile::VAProfileVC1Advanced => "VAProfileVC1Advanced"@,
            profile::VAProfileJPEGBaseline => "VAProfileJPEGBaseline"@,
            profile::VAProfileH264ConstrainedBaseline => "VAProfileH264ConstrainedBaseline"@,
            profile::VAProfileVP8Version0_3 => "VAProfileVP8Version0_3"@,
            profile::VAProfileHEVCMain => "VAProfileHEVCMain"@,
            profile::VAProfileHEVCMain10 => "VAProfileHEVCMain10"@,
            profile::VAProfileVP9Profile0 => "VAProfileVP9Profile0"@,
            profile::VAProfileVP9Profile2 => "VAProfileVP9Profile2"@,
            profile::VAProfileHEVCMain12 => "VAProfileHEVCMain12"@,
            profile::VAProfileHEVCMain444 => "VAProfileHEVCMain444"@,
            profile::VAProfileHEVCMain444_10 => "VAProfileHEVCMain444_10"@,
            profile::VAProfileHEVCMain444_12 => "VAProfileHEVCMain444_12"@,
            profile::VAProfileAV1Profile0 => "VAProfileAV1Profile0"@,
            profile::VAProfileAV1Profile1 => "VAProfileAV1Profile1"@,
            n => "VAProfile("@ + decimal(n as int) + ")"@,
        }
    }

    /// The underlying enumeration value.
    pub fn raw(self) -> (value: i32)
        ensures
            value == self.0,
    {
        self.0
    }

    /// The name of the profile; `VAProfile(N)` for those without one.
    pub fn name(self) -> (text: String)
        ensures
            text@ == self.name_text(),
    {
        match self.0 {
            profile::VAProfileNone => "VAProfileNone".to_string(),
            profile::VAProfileMPEG2Simple => "VAProfileMPEG2Simple".to_string(),
            profile::VAProfileMPEG2Main => "VAProfileMPEG2Main".to_string(),
            profile::VAProfileH264Baseline => "VAProfileH264Baseline".to_string(),
            profile::VAProfileH264Main => "VAProfileH264Main".to_string(),
            profile::VAProfileH264High => "VAProfileH264High".to_string(),
            profile::VAProfileVC1Simple => "VAProfileVC1Simple".to_string(),
            profile::VAProfileVC1Main => "VAProfileVC1Main".to_string(),
            profile::VAProfileVC1Advanced => "VAProfileVC1Advanced".to_string(),
            profile::VAProfileJPEGBaseline => "VAProfileJPEGBaseline".to_string(),
            profile::VAProfileH264ConstrainedBaseline => "VAProfileH264ConstrainedBaseline".to_string(),
            profile::VAProfileVP8Version0_3 => "VAProfileVP8Version0_3".to_string(),
            profile::VAProfileHEVCMain => "VAProfileHEVCMain".to_string(),
            profile::VAProfileHEVCMain10 => "VAProfileHEVCMain10".to_string(),
            profile::VAProfileVP9Profile0 => "VAProfileVP9Profile0".to_string(),
            profile::VAProfileVP9Profile2 => "VAProfileVP9Profile2".to_string(),
            profile::VAProfileHEVCMain12 => "VAProfileHEVCMain12".to_string(),
            profile::VAProfileHEVCMain444 => "VAProfileHEVCMain444".to_string(),
            profile::VAProfileHEVCMain444_10 => "VAProfileHEVCMain444_10".to_string(),
            profile::VAProfileHEVCMain444_12 => "VAProfileHEVCMain444_12".to_string(),
            profile::VAProfileAV1Profile0 => "VAProfileAV1Profile0".to_string(),
            profile::VAProfileAV1Profile1 => "VAProfileAV1Profile1".to_string(),
            n => {
                let mut text: String = joined("VAProfile(", decimal_text(n as i64).as_str());
                text.append(")");
                text
            },
        }
    }
}

/// Whether a list of identifiers holds `code`.
pub fn holds_code(codes: &[i32], code: i32) -> (found: bool)
    ensures
        found == codes@.contains(code),
{
    let mut i: usize = 0;
    while i < codes.len()
        invariant
            i <= codes@.len(),
            forall|k: int| 0 <= k < i ==> codes@[k] != code,
        decreases codes@.len() - i,
    {
        if codes[i] == code {
            return true;
        }
        i += 1;
    }
    false
}

/// A profile with the entrypoints that the driver advertises for it.
pub type MatrixRow = (VaProfile, Seq<i32>);

/// The entrypoints in the first row for `profile`; none without such a row.
pub open spec fn row_entrypoints(rows: Seq<MatrixRow>, profile: VaProfile) -> Seq<i32>
    decreases rows.len(),
{
    if rows.len() == 0 {
        seq![]
    } else if rows[0].0 == profile {
        rows[0].1
    } else {
        row_entrypoints(rows.skip(1), profile)
    }
}

/// `profile` is advertised with `entrypoint`.
pub open spec fn row_supports(rows: Seq<MatrixRow>, profile: VaProfile, entrypoint: i32) -> bool {
    row_entrypoints(rows, profile).contains(entrypoint)
}

/// The profiles of the rows, in order.
pub open spec fn row_profiles(rows: Seq<MatrixRow>) -> Seq<VaProfile> {
    rows.map_values(|row: MatrixRow| row.0)
}

/// The profiles of the rows that list `entrypoint`, in order.
pub open spec fn row_profiles_with(rows: Seq<MatrixRow>, entrypoint: i32) -> Seq<VaProfile> {
    rows.filter_map(
        |row: MatrixRow|
            if row.1.contains(entrypoint) {
                Some(row.0)
            } else {
                None
            },
    )
}

/// Snapshot of the profiles that a driver advertises, each with its
/// entrypoints, in the order of the driver's profile list.
#[derive(Debug, Clone)]
pub struct EntrypointMatrix {
    rows: Vec<(VaProfile, Vec<i32>)>,
}

impl View for EntrypointMatrix {
    type V = Seq<MatrixRow>;

    closed spec fn view(&self) -> Seq<MatrixRow> {
        self.rows@.map_values(|row: (VaProfile, Vec<i32>)| (row.0, row.1@))
    }
}

impl EntrypointMatrix {
    /// A matrix without rows.
    pub fn empty() -> (matrix: Self)
        ensures
            matrix@ == Seq::<MatrixRow>::empty(),
    {
        let matrix = EntrypointMatrix { rows: Vec::new() };
        assert(matrix@ =~= Seq::<MatrixRow>::empty());
        matrix
    }

    /// Append the row of one profile.
    pub fn push_row(&mut self, profile: VaProfile, entrypoints: Vec<i32>)
        ensures
            final(self)@ == old(self)@.push((profile, entrypoints@)),
    {
        self.rows.push((profile, entrypoints));
        assert(self@ =~= old(self)@.push((profile, entrypoints@)));
    }

    /// The advertised profiles, in order.
    pub fn profiles(&self) -> (profiles: Vec<VaProfile>)
        ensures
            profiles@ == row_profiles(self@),
    {
        let mut profiles: Vec<VaProfile> = Vec::new();
        let mut i: usize = 0;
        while i < self.rows.len()
            invariant
                i <= self.rows@.len(),
                profiles@ == row_profiles(self@).take(i as int),
            decreases self.rows@.len() - i,
        {
            profiles.push(self.rows[i].0);
            assert(row_profiles(self@).take(i + 1) =~= row_profiles(self@).take(i as int).push(
                self@[i as int].0,
            ));
            i += 1;
        }
        assert(row_profiles(self@).take(i as int) =~= row_profiles(self@));
        profiles
    }

    /// Number of advertised profiles.
    pub fn len(&self) -> (count: usize)
        ensures
            count == self@.len(),
    {
        self.rows.len()
    }

    /// Whether no profile is advertised.
    pub fn is_empty(&self) -> (empty: bool)
        ensures
            empty == (self@.len() == 0),
    {
        self.rows.len() == 0
    }

    /// The entrypoints advertised for `profile`; empty when it is not
    /// advertised.
    pub fn entrypoints_for(&self, profile: VaProfile) -> (entrypoints: &[i32])
        ensures
            entrypoints@ == row_entrypoints(self@, profile),
    {
        let mut i: usize = 0;
        assert(self@.skip(0) =~= self@);
        while i < self.rows.len()
            invariant
                i <= self.rows@.len(),
                row_entrypoints(self@.skip(i as int), profile) == row_entrypoints(self@, profile),
            decreases self.rows@.len() - i,
        {
            assert(self@.skip(i as int)[0] == self@[i as int]);
            if self.rows[i].0 == profile {
                return self.rows[i].1.as_slice();
            }
            assert(self@.skip(i as int).skip(1) =~= self@.skip(i + 1));
            i += 1;
        }
        let none: &[i32] = &[];
        assert(none@ =~= Seq::<i32>::empty());
        none
    }

    /// Whether `profile` is advertised with `entrypoint`.
    pub fn is_supported(&self, profile: VaProfile, entrypoint: i32) -> (supported: bool)
        ensures
            supported == row_supports(self@, profile, entrypoint),
    {
        holds_code(self.entrypoints_for(profile), entrypoint)
    }

    /// The advertised profiles that list `entrypoint`, in order.
    pub fn profiles_with_entrypoint(&self, entrypoint: i32) -> (profiles: Vec<VaProfile>)
        ensures
            profiles@ == row_profiles_with(self@, entrypoint),
    {
        let mut profiles: Vec<VaProfile> = Vec::new();
        let mut i: usize = 0;
        while i < self.rows.len()
            invariant
                i <= self.rows@.len(),
                profiles@ == row_profiles_with(self@.take(i as int), entrypoint),
            decreases self.rows@.len() - i,
        {
            assert(self@.take(i + 1).drop_last() =~= self@.take(i as int));
            assert(self@.take(i + 1).last() == self@[i as int]);
            if holds_code(self.rows[i].1.as_slice(), entrypoint) {
                profiles.push(self.rows[i].0);
            }
            i += 1;
        }
        assert(self@.take(i as int) =~= self@);
        profiles
    }

    /// Whether any of `profiles` is advertised with `entrypoint`.
    pub fn any_supports(&self, profiles: &[i32], entrypoint: i32) -> (supported: bool)
        ensures
            supported == any_row_supports(self@, profiles@, entrypoint),
    {
        let mut i: usize = 0;
        while i < profiles.len()
            invariant
                i <= profiles@.len(),
                forall|k: int|
                    0 <= k < i ==> !row_supports(
                        self@,
                        VaProfile(#[trigger] profiles@[k]),
                        entrypoint,
                    ),
            decreases profiles@.len() - i,
        {
            if self.is_supported(VaProfile(profiles[i]), entrypoint) {
                return true;
            }
            i += 1;
        }
        false
    }
}

/// One of `profiles` is advertised with `entrypoint`.
pub open spec fn any_row_supports(
    rows: Seq<MatrixRow>,
    profiles: Seq<i32>,
    entrypoint: i32,
) -> bool {
    exists|k: int|
        0 <= k < profiles.len() && row_supports(
            rows,
            VaProfile(#[trigger] profiles[k]),
            entrypoint,
        )
}

/// No profile has two rows.
pub open spec fn profiles_distinct(rows: Seq<MatrixRow>) -> bool {
    forall|i: int, j: int|
        0 <= i < j < rows.len() ==> (#[trigger] rows[i]).0 != (#[trigger] rows[j]).0
}

/// The row of a profile that no earlier row has.
proof fn lemma_entrypoints_of_row(rows: Seq<MatrixRow>, i: int)
    requires
        0 <= i < rows.len(),
        forall|k: int| 0 <= k < i ==> (#[trigger] rows[k]).0 != rows[i].0,
    ensures
        row_entrypoints(rows, rows[i].0) == rows[i].1,
    decreases i,
{
    if i > 0 {
        let rest = rows.skip(1);
        assert(forall|k: int| 0 <= k < i - 1 ==> #[trigger] rest[k] == rows[k + 1]);
        lemma_entrypoints_of_row(rest, i - 1);
    }
}

proof fn lemma_filter_prefix(rows: Seq<MatrixRow>, entrypoint: i32, n: int)
    requires
        profiles_distinct(rows),
        0 <= n <= rows.len(),
    ensures
        row_profiles_with(rows.take(n), entrypoint) == row_profiles(rows).take(n).filter(
            |profile: VaProfile| row_supports(rows, profile, entrypoint),
        ),
    decreases n,
{
    reveal(Seq::filter);
    if n > 0 {
        lemma_filter_prefix(rows, entrypoint, n - 1);
        lemma_entrypoints_of_row(rows, n - 1);
        assert(rows.take(n).drop_last() =~= rows.take(n - 1));
        assert(row_profiles(rows).take(n).drop_last() =~= row_profiles(rows).take(n - 1));
    }
}

/// In a matrix without repeated profiles, the profiles filtered by an
/// entrypoint are those of its profiles that are supported with it.
pub proof fn law_filter_agrees_with_is_supported(rows: Seq<MatrixRow>, entrypoint: i32)
    requires
        profiles_distinct(rows),
    ensures
        row_profiles_with(rows, entrypoint) == row_profiles(rows).filter(
            |profile: VaProfile| row_supports(rows, profile, entrypoint),
        ),
{
    lemma_filter_prefix(rows, entrypoint, rows.len() as int);
    assert(rows.take(rows.len() as int) =~= rows);
    assert(row_profiles(rows).take(rows.len() as int) =~= row_profiles(rows));
}

/// A profile that no row lists is supported with nothing.
pub proof fn law_unlisted_profile_is_unsupported(
    rows: Seq<MatrixRow>,
    profile: VaProfile,
    entrypoint: i32,
)
    requires
        !row_profiles(rows).contains(profile),
    ensures
        row_entrypoints(rows, profile) == Seq::<i32>::empty(),
        !row_supports(rows, profile, entrypoint),
    decreases rows.len(),
{
    if rows.len() > 0 {
        assert(row_profiles(rows)[0] == rows[0].0);
        let rest = rows.skip(1);
        if row_profiles(rest).contains(profile) {
            let i = choose|i: int| 0 <= i < rest.len() && row_profiles(rest)[i] == profile;
            assert(row_profiles(rows)[i + 1] == profile);
        }
        law_unlisted_profile_is_unsupported(rest, profile, entrypoint);
    }
}

/// Row `i` is the first one for the profile `raw`.
pub open spec fn is_first_row(rows: Seq<MatrixRow>, i: int, raw: i32) -> bool {
    &&& 0 <= i < rows.len()
    &&& rows[i].0.0 == raw
    &&& forall|j: int| 0 <= j < i ==> (#[trigger] rows[j]).0.0 != raw
}

/// The first row for the profile `raw` lists `entrypoint`.
pub open spec fn advertises(rows: Seq<MatrixRow>, raw: i32, entrypoint: i32) -> bool {
    exists|i: int| #[trigger] is_first_row(rows, i, raw) && rows[i].1.contains(entrypoint)
}

/// A profile is looked up in its first row: it has that row's entrypoints, and
/// is supported with exactly those.
pub proof fn law_first_row_decides(rows: Seq<MatrixRow>, raw: i32, entrypoint: i32)
    ensures
        row_supports(rows, VaProfile(raw), entrypoint) <==> advertises(rows, raw, entrypoint),
        forall|i: int| #[trigger]
            is_first_row(rows, i, raw) ==> row_entrypoints(rows, VaProfile(raw)) == rows[i].1,
{
    assert forall|i: int| #[trigger] is_first_row(rows, i, raw) implies row_entrypoints(
        rows,
        VaProfile(raw),
    ) == rows[i].1 by {
        assert(rows[i].0 == VaProfile(raw));
        lemma_entrypoints_of_row(rows, i);
    }
    if row_supports(rows, VaProfile(raw), entrypoint) {
        lemma_first_row_exists(rows, VaProfile(raw));
        let i = choose|i: int| is_first_row(rows, i, raw);
        assert(is_first_row(rows, i, raw) && rows[i].1.contains(entrypoint));
    }
}

proof fn lemma_first_row_exists(rows: Seq<MatrixRow>, profile: VaProfile)
    requires
        row_entrypoints(rows, profile).len() > 0,
    ensures
        exists|i: int| is_first_row(rows, i, profile.0),
    decreases rows.len(),
{
    if rows.len() > 0 {
        if rows[0].0 == profile {
            assert(is_first_row(rows, 0, profile.0));
        } else {
            let rest = rows.skip(1);
            lemma_first_row_exists(rest, profile);
            let i = choose|i: int| is_first_row(rest, i, profile.0);
            assert forall|j: int| 0 <= j < i + 1 implies (#[trigger] rows[j]).0.0
                != profile.0 by {
                if j > 0 {
                    assert(rest[j - 1] == rows[j]);
                } else {
                    assert(rows[0].0 == VaProfile(rows[0].0.0));
                }
            }
            assert(is_first_row(rows, i + 1, profile.0));
        }
    }
}

/// A family of profiles supports an entrypoint exactly when one of them is
/// advertised with it.
pub proof fn law_any_profile_decides(rows: Seq<MatrixRow>, profiles: Seq<i32>, entrypoint: i32)
    ensures
        any_row_supports(rows, profiles, entrypoint) <==> exists|raw: i32| #[trigger]
            advertises(rows, raw, entrypoint) && profiles.contains(raw),
{
    if any_row_supports(rows, profiles, entrypoint) {
        let k = choose|k: int|
            0 <= k < profiles.len() && row_supports(
                rows,
                VaProfile(#[trigger] profiles[k]),
                entrypoint,
            );
        law_first_row_decides(rows, profiles[k], entrypoint);
        assert(advertises(rows, profiles[k], entrypoint) && profiles.contains(profiles[k]));
    }
    if exists|raw: i32| #[trigger]
        advertises(rows, raw, entrypoint) && profiles.contains(raw) {
        let raw = choose|raw: i32| #[trigger]
            advertises(rows, raw, entrypoint) && profiles.contains(raw);
        let k = choose|k: int| 0 <= k < profiles.len() && profiles[k] == raw;
        law_first_row_decides(rows, raw, entrypoint);
        assert(row_supports(rows, VaProfile(profiles[k]), entrypoint));
    }
}

/// The profiles that list an entrypoint are those of the rows that do, each
/// once for every such row, in the order of the rows.
pub proof fn law_filtered_profiles_are_rows(rows: Seq<MatrixRow>, entrypoint: i32)
    ensures
        forall|profile: VaProfile| #[trigger]
            row_profiles_with(rows, entrypoint).contains(profile) <==> exists|i: int|
                0 <= i < rows.len() && (#[trigger] rows[i]).0 == profile && rows[i].1.contains(
                    entrypoint,
                ),
        rows.len() > 0 ==> row_profiles_with(rows, entrypoint) == row_profiles_with(
            rows.drop_last(),
            entrypoint,
        ) + if rows.last().1.contains(entrypoint) {
            seq![rows.last().0]
        } else {
            seq![]
        },
    decreases rows.len(),
{
    let all = row_profiles_with(rows, entrypoint);
    if rows.len() == 0 {
        assert(all =~= seq![]);
    } else {
        let rest = rows.drop_last();
        let kept = row_profiles_with(rest, entrypoint);
        law_filtered_profiles_are_rows(rest, entrypoint);
        let n = rows.len() - 1;
        assert(all =~= kept + if rows[n].1.contains(entrypoint) {
            seq![rows[n].0]
        } else {
            seq![]
        });
        assert forall|profile: VaProfile| #[trigger] all.contains(profile) <==> exists|i: int|
            0 <= i < rows.len() && (#[trigger] rows[i]).0 == profile && rows[i].1.contains(
                entrypoint,
            ) by {
            if all.contains(profile) {
                let k = choose|k: int| 0 <= k < all.len() && all[k] == profile;
                if k < kept.len() {
                    assert(kept[k] == profile);
                    assert(kept.contains(profile));
                    let i = choose|i: int|
                        0 <= i < rest.len() && (#[trigger] rest[i]).0 == profile
                            && rest[i].1.contains(entrypoint);
                    assert(rows[i] == rest[i]);
                } else {
                    assert(rows[n].0 == profile && rows[n].1.contains(entrypoint));
                }
            }
            if exists|i: int|
                0 <= i < rows.len() && (#[trigger] rows[i]).0 == profile && rows[i].1.contains(
                    entrypoint,
                ) {
                let i = choose|i: int|
                    0 <= i < rows.len() && (#[trigger] rows[i]).0 == profile
                        && rows[i].1.contains(entrypoint);
                if i < n {
                    assert(rest[i] == rows[i]);
                    assert(kept.contains(profile));
                    let k = choose|k: int| 0 <= k < kept.len() && kept[k] == profile;
                    assert(all[k] == profile);
                } else {
                    assert(all[kept.len() as int] == profile);
                }
            }
        }
    }
}

/// The names of the profiles, by their numbers in `va.h`.
pub proof fn law_profiles_have_their_header_names(raw: i32)
    ensures
        VaProfile(raw).name_text() == match raw {
            -1 => "VAProfileNone"@,
            0 => "VAProfileMPEG2Simple"@,
            1 => "VAProfileMPEG2Main"@,
            5 => "VAProfileH264Baseline"@,
            6 => "VAProfileH264Main"@,
            7 => "VAProfileH264High"@,
            8 => "VAProfileVC1Simple"@,
            9 => "VAProfileVC1Main"@,
            10 => "VAProfileVC1Advanced"@,
            12 => "VAProfileJPEGBaseline"@,
            13 => "VAProfileH264ConstrainedBaseline"@,
            14 => "VAProfileVP8Version0_3"@,
            17 => "VAProfileHEVCMain"@,
            18 => "VAProfileHEVCMain10"@,
            19 => "VAProfileVP9Profile0"@,
            21 => "VAProfileVP9Profile2"@,
            23 => "VAProfileHEVCMain12"@,
            26 => "VAProfileHEVCMain444"@,
            27 => "VAProfileHEVCMain444_10"@,
            28 => "VAProfileHEVCMain444_12"@,
            32 => "VAProfileAV1Profile0"@,
            33 => "VAProfileAV1Profile1"@,
            _ => "VAProfile("@ + decimal(raw as int) + ")"@,
        },
{
}

/// What a matrix tells of its rows: their profiles, in order, and their number.
pub proof fn law_matrices_tell_their_rows(
    matrix: &EntrypointMatrix,
    profiles: Vec<VaProfile>,
    count: usize,
    empty: bool,
)
    requires
        call_ensures(EntrypointMatrix::profiles, (matrix,), profiles),
        call_ensures(EntrypointMatrix::len, (matrix,), count),
        call_ensures(EntrypointMatrix::is_empty, (matrix,), empty),
    ensures
        profiles@.len() == matrix@.len() && count == matrix@.len(),
        forall|i: int| 0 <= i < matrix@.len() ==> #[trigger] profiles@[i] == matrix@[i].0,
        empty <==> count == 0,
{
}

/// What a matrix answers: the entrypoints in the first row of the profile, and
/// none for a profile without a row.
pub proof fn law_matrices_answer_from_the_first_row(
    matrix: &EntrypointMatrix,
    raw: i32,
    entrypoints: &[i32],
    entrypoint: i32,
    supported: bool,
)
    requires
        call_ensures(EntrypointMatrix::entrypoints_for, (matrix, VaProfile(raw)), entrypoints),
        call_ensures(
            EntrypointMatrix::is_supported,
            (matrix, VaProfile(raw), entrypoint),
            supported,
        ),
    ensures
        supported <==> advertises(matrix@, raw, entrypoint),
        supported <==> entrypoints@.contains(entrypoint),
        forall|i: int| #[trigger]
            is_first_row(matrix@, i, raw) ==> entrypoints@ == matrix@[i].1,
        entrypoints@.len() > 0 ==> exists|i: int| is_first_row(matrix@, i, raw),
{
    law_first_row_decides(matrix@, raw, entrypoint);
    if entrypoints@.len() > 0 {
        lemma_first_row_exists(matrix@, VaProfile(raw));
    }
}

/// What a matrix answers of several profiles: whether one of them is
/// advertised with the entrypoint, and which rows list it.
pub proof fn law_matrices_answer_for_several_profiles(
    matrix: &EntrypointMatrix,
    profiles: &[i32],
    entrypoint: i32,
    any: bool,
    listed: Vec<VaProfile>,
    profile: VaProfile,
)
    requires
        call_ensures(EntrypointMatrix::any_supports, (matrix, profiles, entrypoint), any),
        call_ensures(
            EntrypointMatrix::profiles_with_entrypoint,
            (matrix, entrypoint),
            listed,
        ),
    ensures
        any <==> exists|raw: i32| #[trigger]
            advertises(matrix@, raw, entrypoint) && profiles@.contains(raw),
        listed@.contains(profile) <==> exists|i: int|
            0 <= i < matrix@.len() && (#[trigger] matrix@[i]).0 == profile
                && matrix@[i].1.contains(entrypoint),
{
    law_any_profile_decides(matrix@, profiles@, entrypoint);
    law_filtered_profiles_are_rows(matrix@, entrypoint);
}

/// Rows are added at the end; a new matrix has none.
pub proof fn law_rows_are_added_at_the_end(
    new: EntrypointMatrix,
    matrix: &mut EntrypointMatrix,
    profile: VaProfile,
    entrypoints: Vec<i32>,
)
    requires
        call_ensures(EntrypointMatrix::empty, (), new),
        call_ensures(EntrypointMatrix::push_row, (matrix, profile, entrypoints), ()),
    ensures
        new@.len() == 0,
        final(matrix)@.len() == old(matrix)@.len() + 1,
        final(matrix)@.last() == (profile, entrypoints@),
        final(matrix)@.drop_last() == old(matrix)@,
{
    assert(final(matrix)@.drop_last() =~= old(matrix)@);
}

/// A profile's number is its own, and its name is that of `va.h`.
pub proof fn law_profiles_tell_number_and_name(profile: VaProfile, number: i32, text: String)
    requires
        call_ensures(VaProfile::raw, (profile,), number),
        call_ensures(VaProfile::name, (profile,), text),
    ensures
        number == profile.0,
        text@ == match number {
            -1 => "VAProfileNone"@,
            0 => "VAProfileMPEG2Simple"@,
            1 => "VAProfileMPEG2Main"@,
            5 => "VAProfileH264Baseline"@,
            6 => "VAProfileH264Main"@,
            7 => "VAProfileH264High"@,
            8 => "VAProfileVC1Simple"@,
            9 => "VAProfileVC1Main"@,
            10 => "VAProfileVC1Advanced"@,
            12 => "VAProfileJPEGBaseline"@,
            13 => "VAProfileH264ConstrainedBaseline"@,
            14 => "VAProfileVP8Version0_3"@,
            17 => "VAProfileHEVCMain"@,
            18 => "VAProfileHEVCMain10"@,
            19 => "VAProfileVP9Profile0"@,
            21 => "VAProfileVP9Profile2"@,
            23 => "VAProfileHEVCMain12"@,
            26 => "VAProfileHEVCMain444"@,
            27 => "VAProfileHEVCMain444_10"@,
            28 => "VAProfileHEVCMain444_12"@,
            32 => "VAProfileAV1Profile0"@,
            33 => "VAProfileAV1Profile1"@,
            _ => "VAProfile("@ + decimal(number as int) + ")"@,
        },
{
}

/// A code is held exactly where it stands at some place of the list.
pub proof fn law_held_codes_stand_in_the_list(codes: &[i32], code: i32, found: bool)
    requires
        call_ensures(holds_code, (codes, code), found),
    ensures
        found <==> exists|i: int| 0 <= i < codes@.len() && codes@[i] == code,
{
}

} // verus!
