//! The staking module: accounts stake funds by bonding them, which reserves them in the
//! currency. Bonding is one-way; there is no call to unbond.
//!
//! The module keeps no storage of its own. It reserves funds through whatever currency
//! its configuration names.

use crate::l_mini_substrate::currency_module;
use crate::l_mini_substrate::io_storage::{Cells, Storage};
use crate::l_mini_substrate::runtime;
use crate::l_mini_substrate::shared::{
    outcome_of, AccountId, CryptoCurrency, DispatchError, DispatchResult, Dispatchable, Outcome,
    StorageMap,
};
use vstd::prelude::*;

verus! {

/// What the runtime decides for this module.
pub trait Config {
    /// The currency in which funds are bonded.
    type Currency: CryptoCurrency<Balance = u64>;
}

/// The balance type of the currency that `T` names.
pub type BalanceOf<T> = <<T as Config>::Currency as CryptoCurrency>::Balance;

/// The implementations of this module.
pub struct Module<T: Config>(core::marker::PhantomData<T>);

impl<T: Config> Module<T> {
    /// The outcome of `sender` bonding `amount` in the state `cells`, and the state it
    /// leaves.
    ///
    /// A sender without an account in the runtime's ledger fails with the ledger's
    /// `DoesNotExist`. For any other sender the outcome is that of reserving `amount`
    /// in the currency.
    pub open spec fn spec_bond(cells: Cells, sender: AccountId, amount: BalanceOf<T>) -> (
        Outcome,
        Cells,
    ) {
        if currency_module::account::<runtime::MyRuntime>(cells, sender) is None {
            (
                Err(currency_module::Error::<runtime::MyRuntime>::DoesNotExist.dispatch_view()),
                cells,
            )
        } else {
            T::Currency::spec_reserve(cells, sender, amount)
        }
    }

    /// Bonds `amount` of the free balance of `sender`. See [`Call::Bond`].
    pub fn bond(store: &mut Storage, sender: AccountId, amount: BalanceOf<T>) -> (result:
        DispatchResult)
        ensures
            (outcome_of(result), final(store)@) == Self::spec_bond(old(store)@, sender, amount),
    {
        if !currency_module::BalancesMap::<runtime::MyRuntime>::is_present(store, sender) {
            return Err(
                DispatchError::from(currency_module::Error::<runtime::MyRuntime>::DoesNotExist),
            );
        }
        T::Currency::reserve(store, sender, amount)
    }
}

/// The calls of this module: its operations with their arguments, all but the sender.
pub enum Call<T: Config> {
    /// Bond `amount` from the sender, if they have enough free balance.
    Bond { amount: BalanceOf<T> },
}

impl<T: Config> Dispatchable for Call<T> {
    open spec fn spec_dispatch(self, cells: Cells, sender: AccountId) -> (Outcome, Cells) {
        match self {
            Call::Bond { amount } => Module::<T>::spec_bond(cells, sender, amount),
        }
    }

    fn dispatch(self, store: &mut Storage, sender: AccountId) -> (result: DispatchResult) {
        match self {
            Call::Bond { amount } => Module::<T>::bond(store, sender, amount),
        }
    }
}

} // verus!
