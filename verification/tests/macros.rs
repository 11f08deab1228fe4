use mini_substrate::n_macros_2::{
    Module1, Module2, Module3, Module4, OnInitialize, OtherOutcome, OtherOutcomeVecExt,
};

#[test]
fn impl_for_tuples() {
    <(Module1, Module2, Module3, Module4) as OnInitialize>::on_initialize();
    <(Module1, Module2, Module3) as OnInitialize>::on_initialize();
    <(Module1, Module2) as OnInitialize>::on_initialize();
}

#[test]
fn count_of_works() {
    let outcomes = vec![
        OtherOutcome::SomethingWentWrong,
        OtherOutcome::SomethingWentWrong,
        OtherOutcome::IDontKnow,
        OtherOutcome::Okay,
        OtherOutcome::IDontKnow,
        OtherOutcome::IDontKnow,
    ];

    assert_eq!(outcomes.something_went_wrong_count(), 2);
    assert_eq!(outcomes.i_dont_know_count(), 3);
    assert_eq!(outcomes.ok_count(), 1);
}
