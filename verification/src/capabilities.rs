//! What a driver advertises: profiles, entrypoints, and the matrix of both.

use vstd::prelude::*;

use crate::display::Display;
use crate::error::VaError;
use crate::error::VaErrorView;
use crate::matrix::holds_code;
use crate::matrix::law_filtered_profiles_are_rows;
use crate::matrix::row_entrypoints;
use crate::matrix::row_profiles;
use crate::matrix::row_profiles_with;
use crate::matrix::EntrypointMatrix;
use crate::matrix::MatrixRow;
use crate::matrix::VaProfile;
use crate::sys::CallReply;
use crate::sys::VA_STATUS_ERROR_UNSUPPORTED_PROFILE;

verus! {

/// The answer to a call that fills in a list: its status, the whole buffer,
/// and how many entries the driver claims to have written.
#[derive(Clone, Debug)]
pub struct ListAnswer {
    pub call: CallReply,
    pub list: Vec<i32>,
    pub count: i32,
}

impl ListAnswer {
    /// The driver claims no more entries than the buffer holds.
    pub open spec fn is_covered(self) -> bool {
        self.count <= self.list@.len()
    }

    /// Whether the driver claims no more entries than the buffer holds.
    pub fn check_covered(&self) -> (covered: bool)
        ensures
            covered == self.is_covered(),
    {
        self.count <= 0 || self.count as usize <= self.list.len()
    }

    /// The entries that were written: as many as claimed, at most all.
    pub open spec fn entries(self) -> Seq<i32> {
        if self.count <= 0 {
            seq![]
        } else if self.is_covered() {
            self.list@.take(self.count as int)
        } else {
            self.list@
        }
    }

    fn to_entries(&self) -> (entries: Vec<i32>)
        ensures
            entries@ == self.entries(),
    {
        let n: usize = if self.count <= 0 {
            0
        } else if self.count as usize <= self.list.len() {
            self.count as usize
        } else {
            self.list.len()
        };
        let mut entries: Vec<i32> = Vec::new();
        let mut i: usize = 0;
        while i < n
            invariant
                i <= n <= self.list@.len(),
                entries@ == self.list@.take(i as int),
            decreases n - i,
        {
            entries.push(self.list[i]);
            assert(self.list@.take(i + 1) =~= self.list@.take(i as int).push(self.list@[i as int]));
            i += 1;
        }
        assert(entries@ =~= self.entries());
        entries
    }
}

/// The profiles that a profile query lists.
pub open spec fn listed_profiles(answer: ListAnswer) -> Seq<VaProfile> {
    answer.entries().map_values(|raw: i32| VaProfile(raw))
}

/// The entrypoints that an entrypoint query lists. A profile that the driver
/// does not support has none.
pub open spec fn listed_entrypoints(answer: ListAnswer) -> Result<Seq<i32>, VaErrorView> {
    if answer.call.status == VA_STATUS_ERROR_UNSUPPORTED_PROFILE {
        Ok(seq![])
    } else if !answer.call.ok() {
        Err(answer.call.failure())
    } else {
        Ok(answer.entries())
    }
}

/// The entrypoints that an entrypoint query lists; none for a failed one.
pub open spec fn entrypoints_or_none(answer: ListAnswer) -> Seq<i32> {
    match listed_entrypoints(answer) {
        Ok(entrypoints) => entrypoints,
        Err(_) => seq![],
    }
}

/// The profiles with the entrypoints that their queries listed.
pub open spec fn answered_rows(profiles: Seq<VaProfile>, answers: Seq<ListAnswer>) -> Seq<
    MatrixRow,
> {
    Seq::new(profiles.len(), |i: int| (profiles[i], entrypoints_or_none(answers[i])))
}

impl Display {
    /// The room that a profile query needs, given `vaMaxNumProfiles`; `None`
    /// where there is nothing to ask for.
    pub fn profile_capacity(&self, max: i32) -> (capacity: Option<usize>)
        ensures
            capacity == if max > 0 {
                Some(max as usize)
            } else {
                None
            },
    {
        if max > 0 {
            Some(max as usize)
        } else {
            None
        }
    }

    /// The profiles that the driver advertises, given `vaMaxNumProfiles` and,
    /// where that is positive, the answer to `vaQueryConfigProfiles`.
    pub fn profiles(&self, max: i32, answer: Option<ListAnswer>) -> (profiles: Result<
        Vec<VaProfile>,
        VaError,
    >)
        requires
            max > 0 ==> answer is Some,
        ensures
            match profiles {
                Ok(profiles) => if max <= 0 {
                    profiles@ == Seq::<VaProfile>::empty()
                } else {
                    answer->0.call.ok() && profiles@ == listed_profiles(answer->0)
                },
                Err(error) => max > 0 && !answer->0.call.ok() && error@
                    == answer->0.call.failure(),
            },
    {
        if max <= 0 {
            return Ok(Vec::new());
        }
        let answer: ListAnswer = answer.unwrap();
        let entries: Vec<i32> = answer.to_entries();
        answer.call.check()?;
        let mut profiles: Vec<VaProfile> = Vec::new();
        let mut i: usize = 0;
        while i < entries.len()
            invariant
                i <= entries@.len(),
                profiles@ == entries@.map_values(|raw: i32| VaProfile(raw)).take(i as int),
            decreases entries@.len() - i,
        {
            profiles.push(VaProfile(entries[i]));
            assert(entries@.map_values(|raw: i32| VaProfile(raw)).take(i + 1)
                =~= entries@.map_values(|raw: i32| VaProfile(raw)).take(i as int).push(
                VaProfile(entries@[i as int]),
            ));
            i += 1;
        }
        assert(entries@.map_values(|raw: i32| VaProfile(raw)).take(i as int)
            =~= entries@.map_values(|raw: i32| VaProfile(raw)));
        Ok(profiles)
    }

    /// The entrypoints that the driver advertises for a profile, given the
    /// answer to `vaQueryConfigEntrypoints`.
    pub fn entrypoints(&self, answer: ListAnswer) -> (entrypoints: Result<Vec<i32>, VaError>)
        requires
            answer.call.ok() ==> answer.is_covered(),
        ensures
            match (entrypoints, listed_entrypoints(answer)) {
                (Ok(list), Ok(expected)) => list@ == expected,
                (Err(error), Err(expected)) => error@ == expected,
                _ => false,
            },
    {
        if answer.call.status == VA_STATUS_ERROR_UNSUPPORTED_PROFILE {
            return Ok(Vec::new());
        }
        let entries: Vec<i32> = answer.to_entries();
        answer.call.check()?;
        Ok(entries)
    }

    /// Whether the driver advertises `entrypoint` for a profile, given the
    /// answer to `vaQueryConfigEntrypoints`; a failed query is a no.
    pub fn is_supported(&self, answer: ListAnswer, entrypoint: i32) -> (supported: bool)
        requires
            answer.call.ok() ==> answer.is_covered(),
        ensures
            supported == entrypoints_or_none(answer).contains(entrypoint),
    {
        match self.entrypoints(answer) {
            Ok(list) => holds_code(list.as_slice(), entrypoint),
            Err(_) => false,
        }
    }

    /// The profiles that the driver advertises with `entrypoint`, given the
    /// answers to `vaQueryConfigEntrypoints` for all of them.
    pub fn profiles_with_entrypoint(
        &self,
        profiles: &[VaProfile],
        answers: Vec<ListAnswer>,
        entrypoint: i32,
    ) -> (supported: Vec<VaProfile>)
        requires
            answers@.len() == profiles@.len(),
            forall|i: int|
                0 <= i < answers@.len() && (#[trigger] answers@[i]).call.ok()
                    ==> answers@[i].is_covered(),
        ensures
            supported@ == row_profiles_with(answered_rows(profiles@, answers@), entrypoint),
    {
        let ghost rows = answered_rows(profiles@, answers@);
        let ghost given = answers@;
        let mut rest: Vec<ListAnswer> = answers;
        let mut supported: Vec<VaProfile> = Vec::new();
        let mut i: usize = 0;
        while i < profiles.len()
            invariant
                i <= profiles@.len(),
                given.len() == profiles@.len(),
                rows == answered_rows(profiles@, given),
                rest@ == given.skip(i as int),
                forall|k: int|
                    0 <= k < given.len() && (#[trigger] given[k]).call.ok()
                        ==> given[k].is_covered(),
                supported@ == row_profiles_with(rows.take(i as int), entrypoint),
            decreases profiles@.len() - i,
        {
            assert(rest@[0] == given[i as int]);
            assert(rows.take(i + 1).drop_last() =~= rows.take(i as int));
            assert(rows.take(i + 1).last() == rows[i as int]);
            let answer: ListAnswer = rest.remove(0);
            assert(rest@ =~= given.skip(i + 1));
            if self.is_supported(answer, entrypoint) {
                supported.push(profiles[i]);
            }
            i += 1;
        }
        assert(rows.take(i as int) =~= rows);
        supported
    }

    /// Begin to collect the matrix of the given profiles.
    pub fn entrypoint_matrix(&self, profiles: Vec<VaProfile>) -> (sweep: MatrixSweep)
        ensures
            sweep@ == (SweepView { profiles: profiles@, rows: seq![] }),
            sweep.wf(),
    {
        let sweep = MatrixSweep { profiles, matrix: EntrypointMatrix::empty() };
        assert(row_profiles(sweep@.rows) =~= sweep@.profiles.take(0));
        sweep
    }
}

/// The state of a [`MatrixSweep`].
#[verifier::ext_equal]
pub struct SweepView {
    /// Every profile of the matrix to be.
    pub profiles: Seq<VaProfile>,
    /// The rows of the profiles that were asked for.
    pub rows: Seq<MatrixRow>,
}

/// Collects an [`EntrypointMatrix`], one entrypoint query per profile, in
/// order. The first query that fails ends the collection.
pub struct MatrixSweep {
    profiles: Vec<VaProfile>,
    matrix: EntrypointMatrix,
}

impl View for MatrixSweep {
    type V = SweepView;

    closed spec fn view(&self) -> SweepView {
        SweepView { profiles: self.profiles@, rows: self.matrix@ }
    }
}

impl SweepView {
    /// The rows belong to the leading profiles.
    pub open spec fn wf(self) -> bool {
        self.rows.len() <= self.profiles.len() && row_profiles(self.rows) == self.profiles.take(
            self.rows.len() as int,
        )
    }
}

impl MatrixSweep {
    /// The rows belong to the leading profiles.
    pub open spec fn wf(self) -> bool {
        self@.wf()
    }

    /// The profile to ask for next; `None` when all have been asked for.
    pub fn next_profile(&self) -> (profile: Option<VaProfile>)
        requires
            self.wf(),
        ensures
            match profile {
                Some(profile) => self@.rows.len() < self@.profiles.len() && profile
                    == self@.profiles[self@.rows.len() as int],
                None => self@.rows.len() == self@.profiles.len(),
            },
    {
        let i: usize = self.matrix.len();
        if i < self.profiles.len() {
            Some(self.profiles[i])
        } else {
            None
        }
    }

    /// Take in the answer for the profile that was asked for.
    pub fn answered(&mut self, display: &Display, answer: ListAnswer) -> (taken: Result<
        (),
        VaError,
    >)
        requires
            old(self).wf(),
            old(self)@.rows.len() < old(self)@.profiles.len(),
            answer.call.ok() ==> answer.is_covered(),
        ensures
            final(self).wf(),
            match (taken, listed_entrypoints(answer)) {
                (Ok(()), Ok(entrypoints)) => final(self)@ == (SweepView {
                    profiles: old(self)@.profiles,
                    rows: old(self)@.rows.push(
                        (old(self)@.profiles[old(self)@.rows.len() as int], entrypoints),
                    ),
                }),
                (Err(error), Err(expected)) => error@ == expected && final(self)@ == old(self)@,
                _ => false,
            },
    {
        let profile: VaProfile = self.profiles[self.matrix.len()];
        match display.entrypoints(answer) {
            Ok(entrypoints) => {
                let ghost before = self.matrix@;
                self.matrix.push_row(profile, entrypoints);
                assert(row_profiles(self.matrix@) =~= row_profiles(before).push(profile));
                assert(self.profiles@.take(before.len() as int + 1) =~= self.profiles@.take(
                    before.len() as int,
                ).push(profile));
                Ok(())
            },
            Err(error) => Err(error),
        }
    }

    /// The matrix, once every profile has been asked for.
    pub fn finish(self) -> (matrix: EntrypointMatrix)
        requires
            self.wf(),
            self@.rows.len() == self@.profiles.len(),
        ensures
            matrix@ == self@.rows,
            row_profiles(matrix@) == self@.profiles,
    {
        assert(self@.profiles.take(self@.rows.len() as int) =~= self@.profiles);
        self.matrix
    }
}

/// Asking a matrix is asking the driver. The matrix of a driver that answers
/// every query the same way each time lists the driver's profiles, gives for
/// each of them the entrypoints that the driver gives, and filters them as the
/// driver's own answers do.
pub proof fn law_matrix_agrees_with_driver(
    profiles: Seq<VaProfile>,
    driver: spec_fn(VaProfile) -> Seq<i32>,
    entrypoint: i32,
)
    ensures
        ({
            let rows = profiles.map_values(|profile: VaProfile| (profile, driver(profile)));
            &&& row_profiles(rows) == profiles
            &&& forall|profile: VaProfile| #[trigger]
                profiles.contains(profile) ==> row_entrypoints(rows, profile) == driver(profile)
            &&& forall|profile: VaProfile|
                !#[trigger] profiles.contains(profile) ==> row_entrypoints(rows, profile)
                    == Seq::<i32>::empty()
            &&& row_profiles_with(rows, entrypoint) == profiles.filter(
                |profile: VaProfile| driver(profile).contains(entrypoint),
            )
        }),
    decreases profiles.len(),
{
    let rows = profiles.map_values(|profile: VaProfile| (profile, driver(profile)));
    assert(row_profiles(rows) =~= profiles);
    assert forall|profile: VaProfile|
        #![trigger profiles.contains(profile)]
        row_entrypoints(rows, profile) == if profiles.contains(profile) {
            driver(profile)
        } else {
            seq![]
        } by {
        lemma_row_of_driver(profiles, driver, profile);
    }
    lemma_filter_of_driver(profiles, driver, entrypoint);
}

proof fn lemma_row_of_driver(
    profiles: Seq<VaProfile>,
    driver: spec_fn(VaProfile) -> Seq<i32>,
    profile: VaProfile,
)
    ensures
        row_entrypoints(
            profiles.map_values(|profile: VaProfile| (profile, driver(profile))),
            profile,
        ) == if profiles.contains(profile) {
            driver(profile)
        } else {
            seq![]
        },
    decreases profiles.len(),
{
    let rows = profiles.map_values(|profile: VaProfile| (profile, driver(profile)));
    if profiles.len() > 0 {
        let rest = profiles.skip(1);
        lemma_row_of_driver(rest, driver, profile);
        assert(rows.skip(1) =~= rest.map_values(|profile: VaProfile| (profile, driver(profile))));
        if profiles.contains(profile) && profiles[0] != profile {
            let i = choose|i: int| 0 <= i < profiles.len() && profiles[i] == profile;
            assert(rest[i - 1] == profile);
        }
        if rest.contains(profile) {
            let i = choose|i: int| 0 <= i < rest.len() && rest[i] == profile;
            assert(profiles[i + 1] == profile);
        }
    }
}

proof fn lemma_filter_of_driver(
    profiles: Seq<VaProfile>,
    driver: spec_fn(VaProfile) -> Seq<i32>,
    entrypoint: i32,
)
    ensures
        row_profiles_with(
            profiles.map_values(|profile: VaProfile| (profile, driver(profile))),
            entrypoint,
        ) == profiles.filter(|profile: VaProfile| driver(profile).contains(entrypoint)),
    decreases profiles.len(),
{
    reveal(Seq::filter);
    let rows = profiles.map_values(|profile: VaProfile| (profile, driver(profile)));
    if profiles.len() > 0 {
        let rest = profiles.drop_last();
        lemma_filter_of_driver(rest, driver, entrypoint);
        assert(rows.drop_last() =~= rest.map_values(
            |profile: VaProfile| (profile, driver(profile)),
        ));
    }
}

/// The number of entries of an answer: as many as the driver claims, but never
/// fewer than none or more than the buffer holds.
pub open spec fn entry_count(answer: ListAnswer) -> int {
    if answer.count <= 0 {
        0
    } else if answer.count <= answer.list@.len() {
        answer.count as int
    } else {
        answer.list@.len() as int
    }
}

/// The driver is asked for its profiles where it has any, and what it then
/// lists are its profiles, in order. A failed query is reported.
pub proof fn law_profiles_are_what_the_driver_lists(
    display: &Display,
    max: i32,
    capacity: Option<usize>,
    answer: Option<ListAnswer>,
    profiles: Result<Vec<VaProfile>, VaError>,
)
    requires
        call_ensures(Display::profile_capacity, (display, max), capacity),
        max > 0 ==> answer is Some,
        call_ensures(Display::profiles, (display, max, answer), profiles),
    ensures
        capacity is Some <==> max > 0,
        capacity matches Some(room) ==> room == max,
        max <= 0 ==> (profiles matches Ok(list) && list@.len() == 0),
        max > 0 && answer->0.call.status != 0 ==> (profiles matches Err(error) && error@ == (
        VaErrorView::Va { status: answer->0.call.status, message: answer->0.call.message() })),
        max > 0 && answer->0.call.status == 0 ==> (profiles matches Ok(list) && list@.len()
            == entry_count(answer->0) && forall|i: int|
            0 <= i < list@.len() ==> (#[trigger] list@[i]).0 == answer->0.list@[i]),
{
}

/// The entrypoints of a profile are what the driver lists for it. The status
/// 12, for a profile that it does not support, means none; any other failure
/// is reported.
pub proof fn law_entrypoints_are_what_the_driver_lists(
    display: &Display,
    answer: ListAnswer,
    entrypoints: Result<Vec<i32>, VaError>,
)
    requires
        call_ensures(Display::entrypoints, (display, answer), entrypoints),
    ensures
        entrypoints is Err <==> answer.call.status != 0 && answer.call.status != 12,
        entrypoints matches Err(error) ==> error@ == (VaErrorView::Va {
            status: answer.call.status,
            message: answer.call.message(),
        }),
        answer.call.status == 12 ==> (entrypoints matches Ok(list) && list@.len() == 0),
        answer.call.status == 0 ==> (entrypoints matches Ok(list) && list@.len() == entry_count(
            answer,
        ) && forall|i: int| 0 <= i < list@.len() ==> #[trigger] list@[i] == answer.list@[i]),
{
}

/// An entrypoint is supported exactly where the query succeeded and one of its
/// entries is that entrypoint.
pub proof fn law_supported_means_listed(
    display: &Display,
    answer: ListAnswer,
    entrypoint: i32,
    supported: bool,
    covered: bool,
)
    requires
        call_ensures(Display::is_supported, (display, answer, entrypoint), supported),
        call_ensures(ListAnswer::check_covered, (&answer,), covered),
    ensures
        covered <==> answer.count <= answer.list@.len(),
        supported <==> answer.call.status == 0 && exists|i: int|
            0 <= i < entry_count(answer) && #[trigger] answer.list@[i] == entrypoint,
{
    let entries = answer.entries();
    assert(entries.len() == entry_count(answer));
    assert forall|i: int| 0 <= i < entries.len() implies #[trigger] answer.list@[i]
        == entries[i] by {}
    if answer.call.status == 0 {
        if supported {
            let i = choose|i: int| 0 <= i < entries.len() && entries[i] == entrypoint;
            assert(answer.list@[i] == entrypoint);
        }
        if exists|i: int| 0 <= i < entry_count(answer) && #[trigger] answer.list@[i] == entrypoint {
            let i = choose|i: int|
                0 <= i < entry_count(answer) && #[trigger] answer.list@[i] == entrypoint;
            assert(entries[i] == entrypoint);
        }
    }
}

/// A profile is kept exactly where its query succeeded and lists the
/// entrypoint.
pub proof fn law_kept_profiles_list_the_entrypoint(
    display: &Display,
    profiles: &[VaProfile],
    answers: Vec<ListAnswer>,
    entrypoint: i32,
    kept: Vec<VaProfile>,
    profile: VaProfile,
)
    requires
        answers@.len() == profiles@.len(),
        call_ensures(
            Display::profiles_with_entrypoint,
            (display, profiles, answers, entrypoint),
            kept,
        ),
    ensures
        kept@.contains(profile) <==> exists|i: int|
            0 <= i < profiles@.len() && (#[trigger] profiles@[i]) == profile
                && answers@[i].call.status == 0 && answers@[i].entries().contains(entrypoint),
{
    let rows = answered_rows(profiles@, answers@);
    law_filtered_profiles_are_rows(rows, entrypoint);
    if kept@.contains(profile) {
        let i = choose|i: int|
            0 <= i < rows.len() && (#[trigger] rows[i]).0 == profile && rows[i].1.contains(
                entrypoint,
            );
        assert(profiles@[i] == profile);
    }
    if exists|i: int|
        0 <= i < profiles@.len() && (#[trigger] profiles@[i]) == profile && answers@[i].call.status
            == 0 && answers@[i].entries().contains(entrypoint) {
        let i = choose|i: int|
            0 <= i < profiles@.len() && (#[trigger] profiles@[i]) == profile
                && answers@[i].call.status == 0 && answers@[i].entries().contains(entrypoint);
        assert(rows[i].0 == profile && rows[i].1.contains(entrypoint));
    }
}

/// A matrix is collected profile by profile, in order: each answer becomes the
/// row of the profile that was asked for. A failed query leaves the rows.
pub proof fn law_sweeps_collect_row_by_row(
    asking: &MatrixSweep,
    profile: Option<VaProfile>,
    sweep: &mut MatrixSweep,
    display: &Display,
    answer: ListAnswer,
    taken: Result<(), VaError>,
)
    requires
        asking.wf(),
        call_ensures(MatrixSweep::next_profile, (asking,), profile),
        call_ensures(MatrixSweep::answered, (sweep, display, answer), taken),
    ensures
        profile is None <==> asking@.rows.len() == asking@.profiles.len(),
        profile matches Some(profile) ==> profile == asking@.profiles[asking@.rows.len() as int],
        final(sweep)@.profiles == old(sweep)@.profiles,
        taken is Ok <==> answer.call.status == 0 || answer.call.status == 12,
        taken is Err ==> final(sweep)@.rows == old(sweep)@.rows,
        taken is Ok ==> ({
            let n = old(sweep)@.rows.len() as int;
            &&& final(sweep)@.rows.len() == n + 1
            &&& final(sweep)@.rows.take(n) == old(sweep)@.rows
            &&& final(sweep)@.rows[n].0 == old(sweep)@.profiles[n]
            &&& answer.call.status == 0 ==> final(sweep)@.rows[n].1 == answer.entries()
            &&& answer.call.status == 12 ==> final(sweep)@.rows[n].1.len() == 0
        }),
{
    if taken is Ok {
        let n = old(sweep)@.rows.len() as int;
        assert(final(sweep)@.rows.take(n) =~= old(sweep)@.rows);
    }
}

/// A sweep begins without rows, over the profiles that are given, and ends
/// with the rows that it collected.
pub proof fn law_sweeps_begin_and_end(
    display: &Display,
    profiles: Vec<VaProfile>,
    begun: MatrixSweep,
    done: MatrixSweep,
    matrix: EntrypointMatrix,
)
    requires
        call_ensures(Display::entrypoint_matrix, (display, profiles), begun),
        call_ensures(MatrixSweep::finish, (done,), matrix),
    ensures
        begun@.profiles == profiles@ && begun@.rows.len() == 0,
        matrix@ == done@.rows,
{
}

} // verus!
