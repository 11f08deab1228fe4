//! The runtime: it decides what the modules leave open, and joins their calls into one.

use crate::l_mini_substrate::currency_module;
use crate::l_mini_substrate::io_storage::{Cells, Storage};
use crate::l_mini_substrate::shared::{AccountId, DispatchResult, Dispatchable, Get, Outcome};
use crate::l_mini_substrate::staking_module;
use vstd::prelude::*;

verus! {

/// The runtime that fulfils the configuration of all modules.
pub struct MyRuntime;

/// The smallest free balance that an account may hold: 5.
pub struct MinimumBalance;

impl Get<u64> for MinimumBalance {
    open spec fn value() -> u64 {
        5
    }

    fn get() -> (value: u64) {
        5
    }
}

/// Whoever is able to mint: the account 42.
pub struct Minter;

impl Get<AccountId> for Minter {
    open spec fn value() -> AccountId {
        AccountId(42)
    }

    fn get() -> (value: AccountId) {
        AccountId(42)
    }
}

impl currency_module::Config for MyRuntime {
    const MODULE_ID: &'static str = "MOD_CURRENCY";

    type Balance = u64;

    type MinimumBalance = MinimumBalance;

    type Minter = Minter;
}

/// The errors of the currency module of this runtime are tagged `MOD_CURRENCY`.
pub proof fn lemma_currency_module_id()
    ensures
        <MyRuntime as currency_module::Config>::MODULE_ID@ == "MOD_CURRENCY"@,
{
}

impl staking_module::Config for MyRuntime {
    type Currency = currency_module::Module<MyRuntime>;
}

/// The outer call of the runtime: a call of one of its modules.
pub enum RuntimeCall {
    /// A call of the currency module.
    Currency(currency_module::Call<MyRuntime>),
    /// A call of the staking module.
    Staking(staking_module::Call<MyRuntime>),
}

impl Dispatchable for RuntimeCall {
    /// What the call of the module comes to, unchanged.
    open spec fn spec_dispatch(self, cells: Cells, sender: AccountId) -> (Outcome, Cells) {
        match self {
            RuntimeCall::Currency(value) => value.spec_dispatch(cells, sender),
            RuntimeCall::Staking(value) => value.spec_dispatch(cells, sender),
        }
    }

    fn dispatch(self, store: &mut Storage, sender: AccountId) -> (result: DispatchResult) {
        match self {
            RuntimeCall::Currency(value) => value.dispatch(store, sender),
            RuntimeCall::Staking(value) => value.dispatch(store, sender),
        }
    }
}

} // verus!
