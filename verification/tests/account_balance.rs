use mini_substrate::l_mini_substrate::currency_module::AccountBalance;
use mini_substrate::l_mini_substrate::runtime::MyRuntime;
use mini_substrate::l_mini_substrate::shared::DispatchError;
use mini_substrate::n_macros_2::{count_of, OtherOutcome, OtherOutcomeVecExt};

fn balance(free: u64, reserved: u64) -> AccountBalance<MyRuntime> {
    AccountBalance { free, reserved }
}

fn fields(balance: &AccountBalance<MyRuntime>) -> (u64, u64) {
    (balance.free, balance.reserved)
}

fn module_error(reason: &str) -> DispatchError {
    DispatchError::Module {
        module_id: "MOD_CURRENCY",
        reason: reason.to_string(),
    }
}

#[test]
fn default_balance_holds_nothing() {
    assert_eq!(fields(&AccountBalance::<MyRuntime>::default()), (0, 0));
    let held = balance(3, 4);
    assert_eq!(fields(&held.clone()), (3, 4));
}

#[test]
fn reserve_on_a_balance() {
    let mut held = balance(50, 1);
    assert!(held.reserve(45).is_ok());
    assert_eq!(fields(&held), (5, 46));
    assert_eq!(held.reserve(1).unwrap_err(), module_error("InsufficientFunds"));
    assert_eq!(held.reserve(6).unwrap_err(), module_error("InsufficientFunds"));
    assert_eq!(fields(&held), (5, 46));
    assert!(held.reserve(5).is_ok());
    assert_eq!(fields(&held), (0, 51));
    assert!(held.reserve(0).is_ok());
    assert_eq!(fields(&held), (0, 51));

    let mut full = balance(10, u64::MAX);
    assert_eq!(full.reserve(10).unwrap_err(), module_error("Overflow"));
    assert_eq!(fields(&full), (10, u64::MAX));
    // the floor is looked at before the overflow
    assert_eq!(full.reserve(8).unwrap_err(), module_error("InsufficientFunds"));
}

#[test]
fn unreserve_on_a_balance() {
    let mut held = balance(0, 50);
    assert!(held.unreserve(20).is_ok());
    assert_eq!(fields(&held), (20, 30));
    assert_eq!(held.unreserve(31).unwrap_err(), module_error("InsufficientFunds"));
    assert_eq!(fields(&held), (20, 30));
    assert!(held.unreserve(30).is_ok());
    assert_eq!(fields(&held), (50, 0));

    let mut full = balance(u64::MAX, 5);
    assert_eq!(full.unreserve(1).unwrap_err(), module_error("Overflow"));
    assert_eq!(fields(&full), (u64::MAX, 5));
    // the reserved balance is looked at before the overflow
    assert_eq!(full.unreserve(6).unwrap_err(), module_error("InsufficientFunds"));
}

#[test]
fn transfer_on_a_balance() {
    let mut held = balance(50, 7);
    assert!(held.can_transfer(45).is_ok());
    assert!(held.can_transfer(50).is_ok());
    assert_eq!(held.can_transfer(46).unwrap_err(), module_error("InsufficientFunds"));
    assert_eq!(held.can_transfer(51).unwrap_err(), module_error("InsufficientFunds"));
    assert_eq!(fields(&held), (50, 7));

    assert_eq!(held.transfer(46).unwrap_err(), module_error("InsufficientFunds"));
    assert_eq!(fields(&held), (50, 7));
    assert!(held.transfer(45).is_ok());
    assert_eq!(fields(&held), (5, 7));
    assert!(held.transfer(5).is_ok());
    assert_eq!(fields(&held), (0, 7));
    assert_eq!(held.transfer(1).unwrap_err(), module_error("InsufficientFunds"));
}

#[test]
fn receive_on_a_balance() {
    let mut held = balance(0, 7);
    assert_eq!(held.can_receive(4).unwrap_err(), module_error("InsufficientFunds"));
    assert!(held.can_receive(5).is_ok());
    assert_eq!(fields(&held), (0, 7));
    assert!(held.receive(5).is_ok());
    assert_eq!(fields(&held), (5, 7));
    assert!(held.receive(0).is_ok());
    assert_eq!(fields(&held), (5, 7));

    let mut full = balance(u64::MAX, 0);
    assert_eq!(full.can_receive(1).unwrap_err(), module_error("Overflow"));
    assert_eq!(full.receive(1).unwrap_err(), module_error("Overflow"));
    assert_eq!(fields(&full), (u64::MAX, 0));
}

// A receipt that stays under the minimum fails with the free balance already raised.
#[test]
fn receive_under_the_minimum_raises_the_free_balance() {
    let mut held = balance(1, 7);
    assert_eq!(held.receive(2).unwrap_err(), module_error("InsufficientFunds"));
    assert_eq!(fields(&held), (3, 7));
}

#[test]
fn count_of_counts_one_kind() {
    let outcomes = [
        OtherOutcome::IDontKnow,
        OtherOutcome::Okay,
        OtherOutcome::IDontKnow,
    ];
    assert_eq!(count_of(&outcomes, OtherOutcome::IDontKnow), 2);
    assert_eq!(count_of(&outcomes, OtherOutcome::Okay), 1);
    assert_eq!(count_of(&outcomes, OtherOutcome::SomethingWentWrong), 0);
    assert_eq!(count_of(&[], OtherOutcome::Okay), 0);
    assert_eq!(outcomes.i_dont_know_count(), 2);
    assert_eq!(outcomes.ok_count(), 1);
    assert_eq!(outcomes.something_went_wrong_count(), 0);
    let part: &[OtherOutcome] = &outcomes[1..];
    assert_eq!(part.i_dont_know_count(), 1);
    assert_eq!(part.ok_count(), 1);
    assert_eq!(part.something_went_wrong_count(), 0);
    let none: Vec<OtherOutcome> = Vec::new();
    assert_eq!(none.ok_count(), 0);
    assert_eq!(none.something_went_wrong_count(), 0);
    assert_eq!(none.i_dont_know_count(), 0);
}
