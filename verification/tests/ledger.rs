use mini_substrate::l_mini_substrate::currency_module::{
    AccountBalance, BalancesMap, Call, Error, Module, TotalIssuance,
};
use mini_substrate::l_mini_substrate::io_storage::Storage;
use mini_substrate::l_mini_substrate::runtime::{MinimumBalance, Minter, MyRuntime, RuntimeCall};
use mini_substrate::l_mini_substrate::shared::{
    AccountId, CryptoCurrency, DispatchError, Dispatchable, Get, StorageMap, StorageValue,
};
use mini_substrate::l_mini_substrate::staking_module;

const MINTER: AccountId = AccountId(42);
const ALICE: AccountId = AccountId(7);
const BOB: AccountId = AccountId(10);

fn module_error(reason: &str) -> DispatchError {
    DispatchError::Module {
        module_id: "MOD_CURRENCY",
        reason: reason.to_string(),
    }
}

fn funded(amount: u64) -> Storage {
    let mut store = Storage::new();
    Call::<MyRuntime>::Mint {
        dest: ALICE,
        amount,
    }
    .dispatch(&mut store, MINTER)
    .unwrap();
    store
}

fn balance_of(store: &Storage, who: AccountId) -> Option<(u64, u64)> {
    BalancesMap::<MyRuntime>::get(store, who).map(|b| (b.free, b.reserved))
}

fn issuance(store: &Storage) -> u64 {
    TotalIssuance::<MyRuntime>::get(store).unwrap_or_default()
}

fn sum_of_balances(store: &Storage, ids: &[u32]) -> u64 {
    ids.iter()
        .filter_map(|id| balance_of(store, AccountId(*id)))
        .map(|(free, reserved)| free + reserved)
        .sum()
}

#[test]
fn runtime_constants() {
    assert_eq!(MinimumBalance::get(), 5);
    assert!(Minter::get() == AccountId(42));
}

#[test]
fn mint_creates_account_and_sets_issuance() {
    let store = funded(100);
    assert_eq!(balance_of(&store, ALICE), Some((100, 0)));
    assert_eq!(issuance(&store), 100);
}

#[test]
fn mint_by_other_than_minter_is_not_allowed() {
    let mut store = Storage::new();
    let result = Call::<MyRuntime>::Mint {
        dest: ALICE,
        amount: 100,
    }
    .dispatch(&mut store, ALICE);
    assert_eq!(result.unwrap_err(), module_error("NotAllowed"));
    assert_eq!(balance_of(&store, ALICE), None);
    assert_eq!(TotalIssuance::<MyRuntime>::get(&store), None);
}

#[test]
fn mint_to_existing_account_changes_nothing() {
    let mut store = funded(100);
    let result = Call::<MyRuntime>::Mint {
        dest: ALICE,
        amount: 30,
    }
    .dispatch(&mut store, MINTER);
    assert!(result.is_ok());
    assert_eq!(balance_of(&store, ALICE), Some((100, 0)));
    assert_eq!(issuance(&store), 100);
}

// A mint to a second new account replaces the issuance: it no longer matches the sum.
#[test]
fn mint_to_second_account_replaces_issuance() {
    let mut store = funded(100);
    Call::<MyRuntime>::Mint {
        dest: BOB,
        amount: 30,
    }
    .dispatch(&mut store, MINTER)
    .unwrap();
    assert_eq!(balance_of(&store, ALICE), Some((100, 0)));
    assert_eq!(balance_of(&store, BOB), Some((30, 0)));
    assert_eq!(issuance(&store), 30);
    assert_eq!(sum_of_balances(&store, &[7, 10]), 130);
}

// A mint does not look at the floor: the new account may hold less than the minimum.
#[test]
fn mint_under_the_minimum_creates_account() {
    let store = funded(3);
    assert_eq!(balance_of(&store, ALICE), Some((3, 0)));
    assert_eq!(issuance(&store), 3);
}

#[test]
fn transfer_to_new_account() {
    let mut store = funded(100);
    Module::<MyRuntime>::transfer(&mut store, ALICE, BOB, 20).unwrap();
    assert_eq!(balance_of(&store, ALICE), Some((80, 0)));
    assert_eq!(balance_of(&store, BOB), Some((20, 0)));
    assert_eq!(issuance(&store), 100);
    assert_eq!(sum_of_balances(&store, &[7, 10]), 100);
}

#[test]
fn transfer_to_existing_account() {
    let mut store = funded(100);
    Module::<MyRuntime>::transfer(&mut store, ALICE, BOB, 20).unwrap();
    Module::<MyRuntime>::transfer(&mut store, ALICE, BOB, 30).unwrap();
    assert_eq!(balance_of(&store, ALICE), Some((50, 0)));
    assert_eq!(balance_of(&store, BOB), Some((50, 0)));
    assert_eq!(issuance(&store), 100);
}

#[test]
fn transfer_from_unknown_sender_does_not_exist() {
    let mut store = funded(100);
    let result = Module::<MyRuntime>::transfer(&mut store, BOB, ALICE, 20);
    assert_eq!(result.unwrap_err(), module_error("DoesNotExist"));
    assert_eq!(balance_of(&store, ALICE), Some((100, 0)));
    assert_eq!(balance_of(&store, BOB), None);
}

#[test]
fn transfer_of_more_than_held_leaves_storage_unchanged() {
    let mut store = funded(100);
    Module::<MyRuntime>::transfer(&mut store, ALICE, BOB, 20).unwrap();
    let result = Module::<MyRuntime>::transfer(&mut store, ALICE, BOB, 90);
    assert_eq!(result.unwrap_err(), module_error("InsufficientFunds"));
    assert_eq!(balance_of(&store, ALICE), Some((80, 0)));
    assert_eq!(balance_of(&store, BOB), Some((20, 0)));
    assert_eq!(issuance(&store), 100);
}

#[test]
fn transfer_that_leaves_sender_under_the_minimum_fails() {
    let mut store = funded(100);
    let result = Module::<MyRuntime>::transfer(&mut store, ALICE, BOB, 97);
    assert_eq!(result.unwrap_err(), module_error("InsufficientFunds"));
    assert_eq!(balance_of(&store, ALICE), Some((100, 0)));
    assert_eq!(balance_of(&store, BOB), None);
}

#[test]
fn transfer_that_leaves_sender_with_the_minimum_or_nothing() {
    let mut store = funded(100);
    Module::<MyRuntime>::transfer(&mut store, ALICE, BOB, 95).unwrap();
    assert_eq!(balance_of(&store, ALICE), Some((5, 0)));
    Module::<MyRuntime>::transfer(&mut store, ALICE, BOB, 5).unwrap();
    assert_eq!(balance_of(&store, ALICE), Some((0, 0)));
    assert_eq!(balance_of(&store, BOB), Some((100, 0)));
}

#[test]
fn transfer_under_the_minimum_to_new_account_never_creates_it() {
    let mut store = funded(100);
    let carol = AccountId(11);
    let result = Module::<MyRuntime>::transfer(&mut store, ALICE, carol, 3);
    assert_eq!(result.unwrap_err(), module_error("InsufficientFunds"));
    assert_eq!(balance_of(&store, carol), None);
    assert!(!BalancesMap::<MyRuntime>::is_present(&store, carol));
    assert_eq!(balance_of(&store, ALICE), Some((100, 0)));
}

#[test]
fn transfer_of_the_minimum_to_new_account_creates_it() {
    let mut store = funded(100);
    Module::<MyRuntime>::transfer(&mut store, ALICE, BOB, 5).unwrap();
    assert_eq!(balance_of(&store, BOB), Some((5, 0)));
}

#[test]
fn transfer_that_overflows_the_destination_fails() {
    let mut store = funded(u64::MAX);
    BalancesMap::<MyRuntime>::set(
        &mut store,
        BOB,
        AccountBalance {
            free: 10,
            reserved: 0,
        },
    );
    let result = Module::<MyRuntime>::transfer(&mut store, ALICE, BOB, u64::MAX);
    assert_eq!(result.unwrap_err(), module_error("Overflow"));
    assert_eq!(balance_of(&store, ALICE), Some((u64::MAX, 0)));
    assert_eq!(balance_of(&store, BOB), Some((10, 0)));
}

// An account that transfers to itself ends with the balance it had.
#[test]
fn transfer_to_self_leaves_the_balance_as_it_was() {
    let mut store = funded(100);
    Module::<MyRuntime>::transfer(&mut store, ALICE, ALICE, 20).unwrap();
    assert_eq!(balance_of(&store, ALICE), Some((100, 0)));
    assert_eq!(issuance(&store), 100);
    assert_eq!(sum_of_balances(&store, &[7]), 100);

    Module::<MyRuntime>::transfer(&mut store, ALICE, ALICE, 100).unwrap();
    assert_eq!(balance_of(&store, ALICE), Some((100, 0)));
    Module::<MyRuntime>::transfer(&mut store, ALICE, ALICE, 0).unwrap();
    assert_eq!(balance_of(&store, ALICE), Some((100, 0)));

    Module::<MyRuntime>::reserve(&mut store, ALICE, 40).unwrap();
    Call::<MyRuntime>::Transfer {
        dest: ALICE,
        amount: 55,
    }
    .dispatch(&mut store, ALICE)
    .unwrap();
    assert_eq!(balance_of(&store, ALICE), Some((60, 40)));
    assert_eq!(issuance(&store), 100);
}

#[test]
fn transfer_to_self_fails_as_any_transfer_does() {
    let mut store = funded(100);
    let under_floor = Module::<MyRuntime>::transfer(&mut store, ALICE, ALICE, 97);
    assert_eq!(under_floor.unwrap_err(), module_error("InsufficientFunds"));
    let too_much = Module::<MyRuntime>::transfer(&mut store, ALICE, ALICE, 101);
    assert_eq!(too_much.unwrap_err(), module_error("InsufficientFunds"));
    let unknown = Module::<MyRuntime>::transfer(&mut store, BOB, BOB, 1);
    assert_eq!(unknown.unwrap_err(), module_error("DoesNotExist"));
    assert_eq!(balance_of(&store, ALICE), Some((100, 0)));
    assert_eq!(balance_of(&store, BOB), None);
    assert_eq!(issuance(&store), 100);
}

// An account that transfers everything to itself ends with the balance it had.
#[test]
fn transfer_all_to_self_leaves_the_balance_as_it_was() {
    let mut store = funded(100);
    Module::<MyRuntime>::transfer_all(&mut store, ALICE, ALICE).unwrap();
    assert_eq!(balance_of(&store, ALICE), Some((100, 0)));
    assert_eq!(issuance(&store), 100);

    Module::<MyRuntime>::reserve(&mut store, ALICE, 30).unwrap();
    Call::<MyRuntime>::TransferAll { dest: ALICE }
        .dispatch(&mut store, ALICE)
        .unwrap();
    assert_eq!(balance_of(&store, ALICE), Some((70, 30)));
    assert_eq!(issuance(&store), 100);
    assert_eq!(sum_of_balances(&store, &[7]), 100);
}

// With no free balance there is nothing to receive, and the destination stays under
// the minimum, whoever it is.
#[test]
fn transfer_all_of_nothing_fails() {
    let mut store = funded(50);
    Module::<MyRuntime>::reserve(&mut store, ALICE, 50).unwrap();
    let to_self = Module::<MyRuntime>::transfer_all(&mut store, ALICE, ALICE);
    assert_eq!(to_self.unwrap_err(), module_error("InsufficientFunds"));
    let unknown = Module::<MyRuntime>::transfer_all(&mut store, BOB, BOB);
    assert_eq!(unknown.unwrap_err(), module_error("DoesNotExist"));
    assert_eq!(balance_of(&store, ALICE), Some((0, 50)));
    assert_eq!(issuance(&store), 50);
}

#[test]
fn transfer_all_moves_the_free_balance_and_keeps_the_record() {
    let mut store = funded(100);
    Module::<MyRuntime>::transfer(&mut store, ALICE, BOB, 20).unwrap();
    Module::<MyRuntime>::reserve(&mut store, ALICE, 30).unwrap();
    Call::<MyRuntime>::TransferAll { dest: BOB }
        .dispatch(&mut store, ALICE)
        .unwrap();
    assert_eq!(balance_of(&store, ALICE), Some((0, 30)));
    assert_eq!(balance_of(&store, BOB), Some((70, 0)));
    assert!(BalancesMap::<MyRuntime>::is_present(&store, ALICE));
    assert_eq!(issuance(&store), 100);
    assert_eq!(sum_of_balances(&store, &[7, 10]), 100);
}

#[test]
fn transfer_all_needs_both_accounts() {
    let mut store = funded(100);
    let to_unknown = Module::<MyRuntime>::transfer_all(&mut store, ALICE, BOB);
    assert_eq!(to_unknown.unwrap_err(), module_error("DoesNotExist"));
    let from_unknown = Module::<MyRuntime>::transfer_all(&mut store, BOB, ALICE);
    assert_eq!(from_unknown.unwrap_err(), module_error("DoesNotExist"));
    assert_eq!(balance_of(&store, ALICE), Some((100, 0)));
    assert_eq!(balance_of(&store, BOB), None);
}

#[test]
fn transfer_all_that_leaves_destination_under_the_minimum_fails() {
    let mut store = Storage::new();
    BalancesMap::<MyRuntime>::set(
        &mut store,
        ALICE,
        AccountBalance {
            free: 2,
            reserved: 0,
        },
    );
    BalancesMap::<MyRuntime>::set(
        &mut store,
        BOB,
        AccountBalance {
            free: 0,
            reserved: 9,
        },
    );
    let result = Module::<MyRuntime>::transfer_all(&mut store, ALICE, BOB);
    assert_eq!(result.unwrap_err(), module_error("InsufficientFunds"));
    assert_eq!(balance_of(&store, ALICE), Some((2, 0)));
    assert_eq!(balance_of(&store, BOB), Some((0, 9)));
}

#[test]
fn reserve_everything_then_nothing_more() {
    let mut store = funded(50);
    Module::<MyRuntime>::reserve(&mut store, ALICE, 50).unwrap();
    assert_eq!(balance_of(&store, ALICE), Some((0, 50)));
    let again = Module::<MyRuntime>::reserve(&mut store, ALICE, 1);
    assert_eq!(again.unwrap_err(), module_error("InsufficientFunds"));
    let bonded = staking_module::Call::<MyRuntime>::Bond { amount: 7 }.dispatch(&mut store, ALICE);
    assert_eq!(bonded.unwrap_err(), module_error("InsufficientFunds"));
    assert_eq!(balance_of(&store, ALICE), Some((0, 50)));
    assert_eq!(issuance(&store), 50);
}

#[test]
fn reserve_that_leaves_less_than_the_minimum_fails() {
    let mut store = funded(50);
    let result = Module::<MyRuntime>::reserve(&mut store, ALICE, 47);
    assert_eq!(result.unwrap_err(), module_error("InsufficientFunds"));
    assert_eq!(balance_of(&store, ALICE), Some((50, 0)));
    Module::<MyRuntime>::reserve(&mut store, ALICE, 45).unwrap();
    assert_eq!(balance_of(&store, ALICE), Some((5, 45)));
}

#[test]
fn reserve_for_unknown_account_does_not_exist() {
    let mut store = funded(50);
    let result = Module::<MyRuntime>::reserve(&mut store, BOB, 1);
    assert_eq!(result.unwrap_err(), module_error("DoesNotExist"));
}

#[test]
fn reserve_that_overflows_the_reserved_balance_fails() {
    let mut store = Storage::new();
    BalancesMap::<MyRuntime>::set(
        &mut store,
        ALICE,
        AccountBalance {
            free: 20,
            reserved: u64::MAX - 5,
        },
    );
    let result = Module::<MyRuntime>::reserve(&mut store, ALICE, 10);
    assert_eq!(result.unwrap_err(), module_error("Overflow"));
    assert_eq!(balance_of(&store, ALICE), Some((20, u64::MAX - 5)));
}

#[test]
fn unreserve_returns_funds_to_the_free_balance() {
    let mut store = funded(50);
    Module::<MyRuntime>::reserve(&mut store, ALICE, 30).unwrap();
    Module::<MyRuntime>::unreserve(&mut store, ALICE, 10).unwrap();
    assert_eq!(balance_of(&store, ALICE), Some((30, 20)));
    assert_eq!(issuance(&store), 50);
    assert_eq!(sum_of_balances(&store, &[7]), 50);
}

#[test]
fn unreserve_errors() {
    let mut store = funded(50);
    Module::<MyRuntime>::reserve(&mut store, ALICE, 30).unwrap();
    let too_much = Module::<MyRuntime>::unreserve(&mut store, ALICE, 31);
    assert_eq!(too_much.unwrap_err(), module_error("InsufficientFunds"));
    let unknown = Module::<MyRuntime>::unreserve(&mut store, BOB, 1);
    assert_eq!(unknown.unwrap_err(), module_error("DoesNotExist"));
    assert_eq!(balance_of(&store, ALICE), Some((20, 30)));

    BalancesMap::<MyRuntime>::set(
        &mut store,
        BOB,
        AccountBalance {
            free: u64::MAX,
            reserved: 10,
        },
    );
    let overflow = Module::<MyRuntime>::unreserve(&mut store, BOB, 1);
    assert_eq!(overflow.unwrap_err(), module_error("Overflow"));
    assert_eq!(balance_of(&store, BOB), Some((u64::MAX, 10)));
}

// Nothing checks the floor when funds are unreserved.
#[test]
fn unreserve_may_leave_less_than_the_minimum() {
    let mut store = funded(50);
    Module::<MyRuntime>::reserve(&mut store, ALICE, 50).unwrap();
    Module::<MyRuntime>::unreserve(&mut store, ALICE, 3).unwrap();
    assert_eq!(balance_of(&store, ALICE), Some((3, 47)));
}

#[test]
fn balances_of_unknown_account_are_none() {
    let store = funded(50);
    assert_eq!(Module::<MyRuntime>::free_balance(&store, BOB), None);
    assert_eq!(Module::<MyRuntime>::reserved_balance(&store, BOB), None);
    assert_eq!(Module::<MyRuntime>::free_balance(&store, ALICE), Some(50));
    assert_eq!(Module::<MyRuntime>::reserved_balance(&store, ALICE), Some(0));
}

#[test]
fn capability_transfer_and_reserve() {
    let mut store = funded(100);
    <Module<MyRuntime> as CryptoCurrency>::transfer(&mut store, ALICE, BOB, 40).unwrap();
    <Module<MyRuntime> as CryptoCurrency>::reserve(&mut store, BOB, 15).unwrap();
    assert_eq!(balance_of(&store, ALICE), Some((60, 0)));
    assert_eq!(balance_of(&store, BOB), Some((25, 15)));
}

#[test]
fn bond_by_account_without_record_does_not_exist() {
    let mut store = funded(100);
    let result = staking_module::Call::<MyRuntime>::Bond { amount: 1 }.dispatch(&mut store, BOB);
    assert_eq!(result.unwrap_err(), module_error("DoesNotExist"));
    assert_eq!(balance_of(&store, BOB), None);
    let direct = staking_module::Module::<MyRuntime>::bond(&mut store, BOB, 1);
    assert_eq!(direct.unwrap_err(), module_error("DoesNotExist"));
}

#[test]
fn runtime_call_forwards_errors_unchanged() {
    let mut store = funded(100);
    let staking = RuntimeCall::Staking(staking_module::Call::Bond { amount: 98 });
    assert_eq!(
        staking.dispatch(&mut store, ALICE).unwrap_err(),
        module_error("InsufficientFunds")
    );
    let currency = RuntimeCall::Currency(Call::Mint {
        dest: BOB,
        amount: 1,
    });
    assert_eq!(
        currency.dispatch(&mut store, ALICE).unwrap_err(),
        module_error("NotAllowed")
    );
    let bond = RuntimeCall::Staking(staking_module::Call::Bond { amount: 40 });
    bond.dispatch(&mut store, ALICE).unwrap();
    assert_eq!(balance_of(&store, ALICE), Some((60, 40)));
}

// Every account keeps a free balance of nothing or of at least the minimum, and the
// issuance stays the sum of all balances, over a run of calls that succeed and fail.
#[test]
fn floor_and_issuance_hold_over_a_run_of_calls() {
    let mut store = funded(1000);
    let calls: Vec<(AccountId, RuntimeCall)> = vec![
        (ALICE, RuntimeCall::Currency(Call::Transfer { dest: BOB, amount: 300 })),
        (BOB, RuntimeCall::Currency(Call::Transfer { dest: AccountId(11), amount: 296 })),
        (BOB, RuntimeCall::Currency(Call::Transfer { dest: AccountId(11), amount: 298 })),
        (BOB, RuntimeCall::Staking(staking_module::Call::Bond { amount: 100 })),
        (ALICE, RuntimeCall::Staking(staking_module::Call::Bond { amount: 698 })),
        (BOB, RuntimeCall::Currency(Call::TransferAll { dest: ALICE })),
        (AccountId(12), RuntimeCall::Currency(Call::TransferAll { dest: ALICE })),
        (MINTER, RuntimeCall::Currency(Call::Mint { dest: ALICE, amount: 9 })),
        (ALICE, RuntimeCall::Currency(Call::Transfer { dest: ALICE, amount: 25 })),
        (ALICE, RuntimeCall::Currency(Call::TransferAll { dest: ALICE })),
        (ALICE, RuntimeCall::Currency(Call::Transfer { dest: AccountId(13), amount: 4 })),
        (ALICE, RuntimeCall::Currency(Call::Transfer { dest: AccountId(13), amount: 900 })),
    ];
    for (sender, call) in calls {
        let _ = call.dispatch(&mut store, sender);
        for id in [7u32, 10, 11, 12, 13] {
            if let Some((free, _)) = balance_of(&store, AccountId(id)) {
                assert!(free == 0 || free >= 5);
            }
        }
        assert_eq!(issuance(&store), 1000);
        assert_eq!(sum_of_balances(&store, &[7, 10, 11, 12, 13]), 1000);
    }
    assert_eq!(balance_of(&store, ALICE), Some((0, 0)));
    assert_eq!(balance_of(&store, BOB), Some((0, 100)));
    assert_eq!(balance_of(&store, AccountId(13)), Some((900, 0)));
}

#[test]
fn errors_become_dispatch_errors() {
    assert_eq!(
        DispatchError::from(Error::<MyRuntime>::DoesNotExist),
        module_error("DoesNotExist")
    );
    assert_eq!(
        DispatchError::from(Error::<MyRuntime>::NotAllowed),
        module_error("NotAllowed")
    );
    assert_eq!(
        DispatchError::from(Error::<MyRuntime>::InsufficientFunds),
        module_error("InsufficientFunds")
    );
    assert_eq!(
        DispatchError::from(Error::<MyRuntime>::Overflow),
        module_error("Overflow")
    );
    assert_eq!(
        DispatchError::from(Error::<MyRuntime>::__marker(std::marker::PhantomData)),
        DispatchError::Other("__marker should never be printed")
    );
    let error = module_error("Overflow");
    assert_eq!(error.clone(), error);
}

#[test]
fn errors_have_names() {
    assert_eq!(Error::<MyRuntime>::DoesNotExist.name(), "DoesNotExist");
    assert_eq!(Error::<MyRuntime>::NotAllowed.name(), "NotAllowed");
    assert_eq!(Error::<MyRuntime>::InsufficientFunds.name(), "InsufficientFunds");
    assert_eq!(Error::<MyRuntime>::Overflow.name(), "Overflow");
}
