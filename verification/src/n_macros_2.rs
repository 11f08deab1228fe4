//! Initialization hooks for modules and for tuples of modules, and counting the outcomes
//! of one kind in a collection.

use vstd::prelude::*;

verus! {

/// The first of four modules that take part in initialization.
pub struct Module1;

/// The second module.
pub struct Module2;

/// The third module.
pub struct Module3;

/// The fourth module.
pub struct Module4;

/// Something that is to be initialized.
pub trait OnInitialize {
    /// Initializes the implementor.
    fn on_initialize();
}

impl OnInitialize for Module1 {
    fn on_initialize() {
    }
}

impl OnInitialize for Module2 {
    fn on_initialize() {
    }
}

impl OnInitialize for Module3 {
    fn on_initialize() {
    }
}

impl OnInitialize for Module4 {
    fn on_initialize() {
    }
}

// A tuple of up to twelve members is initialized by initializing its members in order.
impl<
    A: OnInitialize,
    B: OnInitialize,
    C: OnInitialize,
    D: OnInitialize,
    E: OnInitialize,
    F: OnInitialize,
    G: OnInitialize,
    H: OnInitialize,
    I: OnInitialize,
    J: OnInitialize,
    K: OnInitialize,
    L: OnInitialize,
> OnInitialize for (A, B, C, D, E, F, G, H, I, J, K, L) {
    fn on_initialize() {
        A::on_initialize();
        B::on_initialize();
        C::on_initialize();
        D::on_initialize();
        E::on_initialize();
        F::on_initialize();
        G::on_initialize();
        H::on_initialize();
        I::on_initialize();
        J::on_initialize();
        K::on_initialize();
        L::on_initialize();
    }
}

impl<
    B: OnInitialize,
    C: OnInitialize,
    D: OnInitialize,
    E: OnInitialize,
    F: OnInitialize,
    G: OnInitialize,
    H: OnInitialize,
    I: OnInitialize,
    J: OnInitialize,
    K: OnInitialize,
    L: OnInitialize,
> OnInitialize for (B, C, D, E, F, G, H, I, J, K, L) {
    fn on_initialize() {
        B::on_initialize();
        C::on_initialize();
        D::on_initialize();
        E::on_initialize();
        F::on_initialize();
        G::on_initialize();
        H::on_initialize();
        I::on_initialize();
        J::on_initialize();
        K::on_initialize();
        L::on_initialize();
    }
}

impl<
    C: OnInitialize,
    D: OnInitialize,
    E: OnInitialize,
    F: OnInitialize,
    G: OnInitialize,
    H: OnInitialize,
    I: OnInitialize,
    J: OnInitialize,
    K: OnInitialize,
    L: OnInitialize,
> OnInitialize for (C, D, E, F, G, H, I, J, K, L) {
    fn on_initialize() {
        C::on_initialize();
        D::on_initialize();
        E::on_initialize();
        F::on_initialize();
        G::on_initialize();
        H::on_initialize();
        I::on_initialize();
        J::on_initialize();
        K::on_initialize();
        L::on_initialize();
    }
}

impl<
    D: OnInitialize,
    E: OnInitialize,
    F: OnInitialize,
    G: OnInitialize,
    H: OnInitialize,
    I: OnInitialize,
    J: OnInitialize,
    K: OnInitialize,
    L: OnInitialize,
> OnInitialize for (D, E, F, G, H, I, J, K, L) {
    fn on_initialize() {
        D::on_initialize();
        E::on_initialize();
        F::on_initialize();
        G::on_initialize();
        H::on_initialize();
        I::on_initialize();
        J::on_initialize();
        K::on_initialize();
        L::on_initialize();
    }
}

impl<
    E: OnInitialize,
    F: OnInitialize,
    G: OnInitialize,
    H: OnInitialize,
    I: OnInitialize,
    J: OnInitialize,
    K: OnInitialize,
    L: OnInitialize,
> OnInitialize for (E, F, G, H, I, J, K, L) {
    fn on_initialize() {
        E::on_initialize();
        F::on_initialize();
        G::on_initialize();
        H::on_initialize();
        I::on_initialize();
        J::on_initialize();
        K::on_initialize();
        L::on_initialize();
    }
}

impl<
    F: OnInitialize,
    G: OnInitialize,
    H: OnInitialize,
    I: OnInitialize,
    J: OnInitialize,
    K: OnInitialize,
    L: OnInitialize,
> OnInitialize for (F, G, H, I, J, K, L) {
    fn on_initialize() {
        F::on_initialize();
        G::on_initialize();
        H::on_initialize();
        I::on_initialize();
        J::on_initialize();
        K::on_initialize();
        L::on_initialize();
    }
}

impl<
    G: OnInitialize,
    H: OnInitialize,
    I: OnInitialize,
    J: OnInitialize,
    K: OnInitialize,
    L: OnInitialize,
> OnInitialize for (G, H, I, J, K, L) {
    fn on_initialize() {
        G::on_initialize();
        H::on_initialize();
        I::on_initialize();
        J::on_initialize();
        K::on_initialize();
        L::on_initialize();
    }
}

impl<
    H: OnInitialize,
    I: OnInitialize,
    J: OnInitialize,
    K: OnInitialize,
    L: OnInitialize,
> OnInitialize for (H, I, J, K, L) {
    fn on_initialize() {
        H::on_initialize();
        I::on_initialize();
        J::on_initialize();
        K::on_initialize();
        L::on_initialize();
    }
}

impl<
    I: OnInitialize,
    J: OnInitialize,
    K: OnInitialize,
    L: OnInitialize,
> OnInitialize for (I, J, K, L) {
    fn on_initialize() {
        I::on_initialize();
        J::on_initialize();
        K::on_initialize();
        L::on_initialize();
    }
}

impl<J: OnInitialize, K: OnInitialize, L: OnInitialize> OnInitialize for (J, K, L) {
    fn on_initialize() {
        J::on_initialize();
        K::on_initialize();
        L::on_initialize();
    }
}

impl<K: OnInitialize, L: OnInitialize> OnInitialize for (K, L) {
    fn on_initialize() {
        K::on_initialize();
        L::on_initialize();
    }
}

impl<L: OnInitialize> OnInitialize for (L,) {
    fn on_initialize() {
        L::on_initialize();
    }
}

/// An outcome of one of three kinds.
#[derive(Clone, Copy, PartialEq, Eq, Structural)]
pub enum OtherOutcome {
    Okay,
    SomethingWentWrong,
    IDontKnow,
}

/// How often `wanted` occurs in `outcomes`.
pub open spec fn occurrences(outcomes: Seq<OtherOutcome>, wanted: OtherOutcome) -> nat
    decreases outcomes.len(),
{
    if outcomes.len() == 0 {
        0
    } else {
        occurrences(outcomes.drop_last(), wanted) + if outcomes.last() == wanted {
            1nat
        } else {
            0nat
        }
    }
}

/// No outcome occurs more often than there are outcomes.
pub proof fn lemma_occurrences_bounded(outcomes: Seq<OtherOutcome>, wanted: OtherOutcome)
    ensures
        occurrences(outcomes, wanted) <= outcomes.len(),
    decreases outcomes.len(),
{
    if outcomes.len() > 0 {
        lemma_occurrences_bounded(outcomes.drop_last(), wanted);
    }
}

/// Counts how often `wanted` occurs in `outcomes`.
pub fn count_of(outcomes: &[OtherOutcome], wanted: OtherOutcome) -> (count: usize)
    ensures
        count == occurrences(outcomes@, wanted),
{
    let mut count: usize = 0;
    let mut i: usize = 0;
    while i < outcomes.len()
        invariant
            i <= outcomes@.len(),
            count == occurrences(outcomes@.subrange(0, i as int), wanted),
        decreases outcomes@.len() - i,
    {
        proof {
            let seen = outcomes@.subrange(0, i + 1);
            assert(seen.drop_last() =~= outcomes@.subrange(0, i as int));
            lemma_occurrences_bounded(seen, wanted);
        }
        if outcomes[i] == wanted {
            count += 1;
        }
        i += 1;
    }
    assert(outcomes@.subrange(0, i as int) =~= outcomes@);
    count
}

/// Counts of each kind of outcome, for collections of outcomes: vectors, slices and
/// arrays.
pub trait OtherOutcomeVecExt {
    /// The outcomes that the collection holds, in order.
    spec fn outcomes(&self) -> Seq<OtherOutcome>;

    /// The number of [`OtherOutcome::Okay`] in the collection.
    fn ok_count(&self) -> (count: usize)
        ensures
            count == occurrences(self.outcomes(), OtherOutcome::Okay),
    ;

    /// The number of [`OtherOutcome::SomethingWentWrong`] in the collection.
    fn something_went_wrong_count(&self) -> (count: usize)
        ensures
            count == occurrences(self.outcomes(), OtherOutcome::SomethingWentWrong),
    ;

    /// The number of [`OtherOutcome::IDontKnow`] in the collection.
    fn i_dont_know_count(&self) -> (count: usize)
        ensures
            count == occurrences(self.outcomes(), OtherOutcome::IDontKnow),
    ;
}

impl OtherOutcomeVecExt for Vec<OtherOutcome> {
    open spec fn outcomes(&self) -> Seq<OtherOutcome> {
        self@
    }

    fn ok_count(&self) -> (count: usize) {
        count_of(self.as_slice(), OtherOutcome::Okay)
    }

    fn something_went_wrong_count(&self) -> (count: usize) {
        count_of(self.as_slice(), OtherOutcome::SomethingWentWrong)
    }

    fn i_dont_know_count(&self) -> (count: usize) {
        count_of(self.as_slice(), OtherOutcome::IDontKnow)
    }
}

impl OtherOutcomeVecExt for [OtherOutcome] {
    open spec fn outcomes(&self) -> Seq<OtherOutcome> {
        self@
    }

    fn ok_count(&self) -> (count: usize) {
        count_of(self, OtherOutcome::Okay)
    }

    fn something_went_wrong_count(&self) -> (count: usize) {
        count_of(self, OtherOutcome::SomethingWentWrong)
    }

    fn i_dont_know_count(&self) -> (count: usize) {
        count_of(self, OtherOutcome::IDontKnow)
    }
}

impl<const N: usize> OtherOutcomeVecExt for [OtherOutcome; N] {
    open spec fn outcomes(&self) -> Seq<OtherOutcome> {
        self@
    }

    fn ok_count(&self) -> (count: usize) {
        count_of(self.as_slice(), OtherOutcome::Okay)
    }

    fn something_went_wrong_count(&self) -> (count: usize) {
        count_of(self.as_slice(), OtherOutcome::SomethingWentWrong)
    }

    fn i_dont_know_count(&self) -> (count: usize) {
        count_of(self.as_slice(), OtherOutcome::IDontKnow)
    }
}

/// How hard this part was to write, from 0 (extremely easy) to 255 (extremely hard).
pub fn how_hard_was_this_section() -> (rating: u8)
    ensures
        rating == 95,
{
    95
}

/// How many hours this part took to write.
pub fn how_many_hours_did_you_spend_on_this_section() -> (hours: u8)
    ensures
        hours == 6,
{
    6
}

} // verus!
