//! The currency module: a ledger of account balances and the calls that change it.
//!
//! The module keeps two storage items: [`TotalIssuance`], one balance, and
//! [`BalancesMap`], which maps each account to its [`AccountBalance`].

use crate::l_mini_substrate::codec::{lemma_u32_encoding_injective, Decode, Encode};
use crate::l_mini_substrate::io_storage;
use crate::l_mini_substrate::io_storage::{Cells, Storage};
use crate::l_mini_substrate::shared::{
    lemma_map_key_injective, lemma_map_put_keeps_others, lemma_map_set_then_get, map_key,
    map_value_in, map_value_put, outcome_of, spec_map_key, spec_value_key, value_key, value_put,
    AccountId, BalanceT, CryptoCurrency, DispatchError, DispatchErrorView, DispatchResult,
    Dispatchable, Get, Outcome, StorageMap, StorageValue,
};
use vstd::prelude::*;
use vstd::slice::slice_subrange;
use vstd::string::{is_ascii, is_ascii_spec_bytes, StringSliceAdditionalSpecFns};
use vstd::std_specs::convert::FromSpecImpl;

verus! {

/// What the runtime decides for this module.
pub trait Config {
    /// The identifier of this module, which tags its errors.
    const MODULE_ID: &'static str;

    /// The account that is allowed to mint new tokens.
    type Minter: Get<AccountId>;

    /// The smallest free balance that an account may hold, unless it holds none at all.
    type MinimumBalance: Get<Self::Balance>;

    /// The numeric type in which balances are kept.
    type Balance: BalanceT;
}

/// The smallest free balance that an account may hold under `T`, as an amount.
pub open spec fn minimum<T: Config>() -> nat {
    T::MinimumBalance::value().amount()
}

/// Whether an account may hold the free amount `free`: none at all, or at least the
/// minimum.
pub open spec fn floor_met<T: Config>(free: nat) -> bool {
    free == 0 || free >= minimum::<T>()
}

/// The error type of this module.
pub enum Error<T: Config> {
    /// The account of choice does not exist.
    DoesNotExist,
    /// The operation is not allowed.
    NotAllowed,
    /// The account exists, but does not hold enough for the operation.
    InsufficientFunds,
    /// An arithmetic operation overflowed.
    Overflow,
    /// Ties the error to its configuration. It stands for no error.
    #[allow(non_camel_case_types)]
    __marker(core::marker::PhantomData<T>),
}

impl<T: Config> Error<T> {
    /// The name of this error. The marker stands for no error and has no name.
    pub open spec fn spec_name(self) -> Seq<char> {
        match self {
            Error::DoesNotExist => "DoesNotExist"@,
            Error::NotAllowed => "NotAllowed"@,
            Error::InsufficientFunds => "InsufficientFunds"@,
            Error::Overflow => "Overflow"@,
            Error::__marker(_) => Seq::empty(),
        }
    }

    /// The name of this error, as it is printed. The marker is never printed.
    pub fn name(&self) -> (name: String)
        requires
            !(self matches Error::__marker(_)),
        ensures
            name@ == self.spec_name(),
    {
        match self {
            Error::DoesNotExist => "DoesNotExist".to_owned(),
            Error::NotAllowed => "NotAllowed".to_owned(),
            Error::InsufficientFunds => "InsufficientFunds".to_owned(),
            Error::Overflow => "Overflow".to_owned(),
            Error::__marker(_) => unreached(),
        }
    }

    /// What the dispatch error made of this error says: the identifier of the module and
    /// the name of the error. The marker is no error of the module.
    pub open spec fn dispatch_view(self) -> DispatchErrorView {
        match self {
            Error::__marker(_) => DispatchErrorView::Other("__marker should never be printed"@),
            _ => DispatchErrorView::Module { module_id: T::MODULE_ID@, reason: self.spec_name() },
        }
    }
}

/// A dispatch error owns its reason as a string, which ghost code cannot build: what
/// `from` returns is stated over its view, in the contract of `from` itself.
impl<T: Config> FromSpecImpl<Error<T>> for DispatchError {
    open spec fn obeys_from_spec() -> bool {
        false
    }

    open spec fn from_spec(e: Error<T>) -> DispatchError {
        arbitrary()
    }
}

impl<T: Config> From<Error<T>> for DispatchError {
    /// Tags the error with the identifier of the module and names it.
    fn from(e: Error<T>) -> (error: DispatchError)
        ensures
            error@ == e.dispatch_view(),
    {
        let module_id = T::MODULE_ID;
        match e {
            Error::DoesNotExist => DispatchError::Module {
                module_id,
                reason: "DoesNotExist".to_owned(),
            },
            Error::NotAllowed => DispatchError::Module {
                module_id,
                reason: "NotAllowed".to_owned(),
            },
            Error::InsufficientFunds => DispatchError::Module {
                module_id,
                reason: "InsufficientFunds".to_owned(),
            },
            Error::Overflow => DispatchError::Module { module_id, reason: "Overflow".to_owned() },
            Error::__marker(_) => DispatchError::Other("__marker should never be printed"),
        }
    }
}

/// The balance of an account.
///
/// The free balance can be transferred out of the account. The reserved balance cannot,
/// until it is unreserved.
pub struct AccountBalance<T: Config> {
    /// The free balance. This can be transferred.
    pub free: T::Balance,
    /// The reserved balance. This cannot be transferred.
    pub reserved: T::Balance,
}

impl<T: Config> Clone for AccountBalance<T> {
    fn clone(&self) -> (copy: Self)
        ensures
            copy == *self,
    {
        AccountBalance { free: self.free, reserved: self.reserved }
    }
}

impl<T: Config> Copy for AccountBalance<T> {

}

impl<T: Config> Default for AccountBalance<T> {
    /// The balance of an account that holds nothing.
    fn default() -> (balance: Self)
        ensures
            balance.free.amount() == 0,
            balance.reserved.amount() == 0,
    {
        AccountBalance { free: T::Balance::zero(), reserved: T::Balance::zero() }
    }
}

impl<T: Config> Encode for AccountBalance<T> {
    /// The free balance, then the reserved balance.
    open spec fn encoding(&self) -> Seq<u8> {
        self.free.encoding() + self.reserved.encoding()
    }

    fn encode(&self) -> (bytes: Vec<u8>) {
        let mut bytes = self.free.encode();
        let mut reserved = self.reserved.encode();
        bytes.append(&mut reserved);
        bytes
    }
}

impl<T: Config> Decode for AccountBalance<T> {
    /// The free balance at the front of `bytes`, then the reserved balance behind it.
    open spec fn decoding(bytes: Seq<u8>) -> Option<(Self, nat)> {
        match T::Balance::decoding(bytes) {
            Some((free, taken)) => match T::Balance::decoding(
                bytes.subrange(taken as int, bytes.len() as int),
            ) {
                Some((reserved, more)) => Some((AccountBalance { free, reserved }, taken + more)),
                None => None,
            },
            None => None,
        }
    }

    proof fn lemma_decoding_fits(bytes: Seq<u8>) {
        T::Balance::lemma_decoding_fits(bytes);
        if let Some((_, taken)) = T::Balance::decoding(bytes) {
            T::Balance::lemma_decoding_fits(bytes.subrange(taken as int, bytes.len() as int));
        }
    }

    proof fn lemma_round_trip(value: Self, rest: Seq<u8>) {
        let free = value.free.encoding();
        let reserved = value.reserved.encoding();
        let bytes = value.encoding() + rest;
        assert(bytes =~= free + (reserved + rest));
        T::Balance::lemma_round_trip(value.free, reserved + rest);
        assert(bytes.subrange(free.len() as int, bytes.len() as int) =~= reserved + rest);
        T::Balance::lemma_round_trip(value.reserved, rest);
    }

    fn decode_front(bytes: &[u8]) -> (read: Option<(Self, usize)>) {
        match T::Balance::decode_front(bytes) {
            Some((free, taken)) => {
                proof {
                    T::Balance::lemma_decoding_fits(bytes@);
                }
                let behind = slice_subrange(bytes, taken, bytes.len());
                match T::Balance::decode_front(behind) {
                    Some((reserved, more)) => {
                        proof {
                            T::Balance::lemma_decoding_fits(behind@);
                        }
                        Some((AccountBalance { free, reserved }, taken + more))
                    },
                    None => None,
                }
            },
            None => None,
        }
    }
}

/// What a change to a balance comes to: on success the new balance, on failure the error
/// as it is dispatched and the balance as it was.
pub open spec fn settled<T: Config>(
    change: Result<AccountBalance<T>, Error<T>>,
    before: AccountBalance<T>,
) -> (Outcome, AccountBalance<T>) {
    match change {
        Ok(after) => (Ok(()), after),
        Err(error) => (Err(error.dispatch_view()), before),
    }
}

impl<T: Config> AccountBalance<T> {
    /// The balance after `amount` is moved from free to reserved. The free balance must
    /// cover `amount` and meet the floor afterwards, and the reserved balance must not
    /// overflow.
    pub open spec fn spec_reserve(self, amount: T::Balance) -> Result<Self, Error<T>> {
        if self.free.amount() < amount.amount() || !floor_met::<T>(
            (self.free.amount() - amount.amount()) as nat,
        ) {
            Err(Error::InsufficientFunds)
        } else if self.reserved.amount() + amount.amount() > T::Balance::largest() {
            Err(Error::Overflow)
        } else {
            Ok(
                AccountBalance {
                    free: T::Balance::of_amount((self.free.amount() - amount.amount()) as nat),
                    reserved: T::Balance::of_amount(self.reserved.amount() + amount.amount()),
                },
            )
        }
    }

    /// The balance after `amount` is moved from reserved back to free. The reserved
    /// balance must cover `amount`, and the free balance must not overflow.
    pub open spec fn spec_unreserve(self, amount: T::Balance) -> Result<Self, Error<T>> {
        if self.reserved.amount() < amount.amount() {
            Err(Error::InsufficientFunds)
        } else if self.free.amount() + amount.amount() > T::Balance::largest() {
            Err(Error::Overflow)
        } else {
            Ok(
                AccountBalance {
                    free: T::Balance::of_amount(self.free.amount() + amount.amount()),
                    reserved: T::Balance::of_amount(
                        (self.reserved.amount() - amount.amount()) as nat,
                    ),
                },
            )
        }
    }

    /// The balance after `amount` is sent from the free balance, which must cover
    /// `amount` and meet the floor afterwards.
    pub open spec fn spec_transfer(self, amount: T::Balance) -> Result<Self, Error<T>> {
        if self.free.amount() < amount.amount() || !floor_met::<T>(
            (self.free.amount() - amount.amount()) as nat,
        ) {
            Err(Error::InsufficientFunds)
        } else {
            Ok(
                AccountBalance {
                    free: T::Balance::of_amount((self.free.amount() - amount.amount()) as nat),
                    reserved: self.reserved,
                },
            )
        }
    }

    /// The balance after `amount` is added to the free balance, which must not overflow
    /// and must reach the minimum.
    pub open spec fn spec_receive(self, amount: T::Balance) -> Result<Self, Error<T>> {
        if self.free.amount() + amount.amount() > T::Balance::largest() {
            Err(Error::Overflow)
        } else if self.free.amount() + amount.amount() < minimum::<T>() {
            Err(Error::InsufficientFunds)
        } else {
            Ok(
                AccountBalance {
                    free: T::Balance::of_amount(self.free.amount() + amount.amount()),
                    reserved: self.reserved,
                },
            )
        }
    }

    /// Reserves `amount`, if possible. On failure the balance stays as it was.
    pub fn reserve(&mut self, amount: T::Balance) -> (result: DispatchResult)
        ensures
            (outcome_of(result), *final(self)) == settled(
                old(self).spec_reserve(amount),
                *old(self),
            ),
    {
        proof {
            lemma_balance_facts::<T>(self.free, self.reserved, amount);
        }
        match self.free.checked_sub(&amount) {
            Some(leftover) => {
                if leftover.at_least(&T::MinimumBalance::get()) || leftover.is_zero() {
                    match self.reserved.checked_add(&amount) {
                        Some(total) => {
                            proof {
                                lemma_balance_is::<T>(leftover);
                                lemma_balance_is::<T>(total);
                            }
                            self.free = leftover;
                            self.reserved = total;
                            Ok(())
                        },
                        None => Err(DispatchError::from(Error::<T>::Overflow)),
                    }
                } else {
                    Err(DispatchError::from(Error::<T>::InsufficientFunds))
                }
            },
            None => Err(DispatchError::from(Error::<T>::InsufficientFunds)),
        }
    }

    /// Unreserves `amount`, if possible. On failure the balance stays as it was.
    pub fn unreserve(&mut self, amount: T::Balance) -> (result: DispatchResult)
        ensures
            (outcome_of(result), *final(self)) == settled(
                old(self).spec_unreserve(amount),
                *old(self),
            ),
    {
        proof {
            lemma_balance_facts::<T>(self.free, self.reserved, amount);
        }
        match self.reserved.checked_sub(&amount) {
            Some(leftover) => match self.free.checked_add(&amount) {
                Some(total) => {
                    proof {
                        lemma_balance_is::<T>(leftover);
                        lemma_balance_is::<T>(total);
                    }
                    self.free = total;
                    self.reserved = leftover;
                    Ok(())
                },
                None => Err(DispatchError::from(Error::<T>::Overflow)),
            },
            None => Err(DispatchError::from(Error::<T>::InsufficientFunds)),
        }
    }

    /// Succeeds if the free balance is enough to transfer `amount`.
    pub fn can_transfer(&self, amount: T::Balance) -> (result: DispatchResult)
        ensures
            outcome_of(result) == settled(self.spec_transfer(amount), *self).0,
    {
        proof {
            lemma_balance_facts::<T>(self.free, self.reserved, amount);
        }
        match self.free.checked_sub(&amount) {
            Some(leftover) if leftover.at_least(&T::MinimumBalance::get()) || leftover.is_zero() => {
                Ok(())
            },
            _ => Err(DispatchError::from(Error::<T>::InsufficientFunds)),
        }
    }

    /// Sends `amount` from the free balance. On failure the balance stays as it was.
    pub fn transfer(&mut self, amount: T::Balance) -> (result: DispatchResult)
        ensures
            (outcome_of(result), *final(self)) == settled(
                old(self).spec_transfer(amount),
                *old(self),
            ),
    {
        proof {
            lemma_balance_facts::<T>(self.free, self.reserved, amount);
        }
        match self.free.checked_sub(&amount) {
            Some(leftover) => {
                if leftover.at_least(&T::MinimumBalance::get()) || leftover.is_zero() {
                    proof {
                        lemma_balance_is::<T>(leftover);
                    }
                    self.free = leftover;
                    Ok(())
                } else {
                    Err(DispatchError::from(Error::<T>::InsufficientFunds))
                }
            },
            None => Err(DispatchError::from(Error::<T>::InsufficientFunds)),
        }
    }

    /// Succeeds if `amount` can be received.
    pub fn can_receive(&self, amount: T::Balance) -> (result: DispatchResult)
        ensures
            outcome_of(result) == settled(self.spec_receive(amount), *self).0,
    {
        proof {
            lemma_balance_facts::<T>(self.free, self.reserved, amount);
        }
        match self.free.checked_add(&amount) {
            Some(n) => {
                proof {
                    lemma_balance_is::<T>(n);
                }
                if n.at_least(&T::MinimumBalance::get()) {
                    Ok(())
                } else {
                    Err(DispatchError::from(Error::<T>::InsufficientFunds))
                }
            },
            None => Err(DispatchError::from(Error::<T>::Overflow)),
        }
    }

    /// Adds `amount` to the free balance, if possible. Where the sum overflows the
    /// balance stays as it was. Where the sum stays under the minimum, the call fails
    /// with the free balance already raised: ask [`Self::can_receive`] first.
    pub fn receive(&mut self, amount: T::Balance) -> (result: DispatchResult)
        ensures
            outcome_of(result) == settled(old(self).spec_receive(amount), *old(self)).0,
            final(self).reserved == old(self).reserved,
            final(self).free == if old(self).free.amount() + amount.amount()
                > T::Balance::largest() {
                old(self).free
            } else {
                T::Balance::of_amount(old(self).free.amount() + amount.amount())
            },
    {
        proof {
            lemma_balance_facts::<T>(self.free, self.reserved, amount);
        }
        match self.free.checked_add(&amount) {
            Some(n) => {
                proof {
                    lemma_balance_is::<T>(n);
                }
                self.free = n;
            },
            None => {
                return Err(DispatchError::from(Error::<T>::Overflow));
            },
        }
        if !self.free.at_least(&T::MinimumBalance::get()) {
            return Err(DispatchError::from(Error::<T>::InsufficientFunds));
        }
        Ok(())
    }
}

/// A successful reservation moves `amount` from free to reserved, and leaves a free
/// balance that meets the floor.
pub proof fn lemma_reserve_amounts<T: Config>(balance: AccountBalance<T>, amount: T::Balance)
    requires
        balance.spec_reserve(amount) is Ok,
    ensures
        ({
            let after = balance.spec_reserve(amount)->Ok_0;
            &&& after.free.amount() + amount.amount() == balance.free.amount()
            &&& after.reserved.amount() == balance.reserved.amount() + amount.amount()
            &&& floor_met::<T>(after.free.amount())
        }),
{
    balance.free.lemma_amount_bounded();
    T::Balance::lemma_of_amount((balance.free.amount() - amount.amount()) as nat);
    T::Balance::lemma_of_amount(balance.reserved.amount() + amount.amount());
}

/// A successful unreservation moves `amount` from reserved to free.
pub proof fn lemma_unreserve_amounts<T: Config>(balance: AccountBalance<T>, amount: T::Balance)
    requires
        balance.spec_unreserve(amount) is Ok,
    ensures
        ({
            let after = balance.spec_unreserve(amount)->Ok_0;
            &&& after.free.amount() == balance.free.amount() + amount.amount()
            &&& after.reserved.amount() + amount.amount() == balance.reserved.amount()
        }),
{
    balance.reserved.lemma_amount_bounded();
    T::Balance::lemma_of_amount(balance.free.amount() + amount.amount());
    T::Balance::lemma_of_amount((balance.reserved.amount() - amount.amount()) as nat);
}

/// A successful send takes `amount` from the free balance, leaves one that meets the
/// floor, and leaves the reserved balance alone.
pub proof fn lemma_transfer_amounts<T: Config>(balance: AccountBalance<T>, amount: T::Balance)
    requires
        balance.spec_transfer(amount) is Ok,
    ensures
        ({
            let after = balance.spec_transfer(amount)->Ok_0;
            &&& after.free.amount() + amount.amount() == balance.free.amount()
            &&& after.reserved == balance.reserved
            &&& floor_met::<T>(after.free.amount())
        }),
{
    balance.free.lemma_amount_bounded();
    T::Balance::lemma_of_amount((balance.free.amount() - amount.amount()) as nat);
}

/// A successful receipt adds `amount` to the free balance, which then reaches the
/// minimum, and leaves the reserved balance alone.
pub proof fn lemma_receive_amounts<T: Config>(balance: AccountBalance<T>, amount: T::Balance)
    requires
        balance.spec_receive(amount) is Ok,
    ensures
        ({
            let after = balance.spec_receive(amount)->Ok_0;
            &&& after.free.amount() == balance.free.amount() + amount.amount()
            &&& after.reserved == balance.reserved
            &&& after.free.amount() >= minimum::<T>()
        }),
{
    T::Balance::lemma_of_amount(balance.free.amount() + amount.amount());
}

/// A balance is the balance of its amount, which the type can hold.
pub proof fn lemma_balance_is<T: Config>(balance: T::Balance)
    ensures
        balance == T::Balance::of_amount(balance.amount()),
        balance.amount() <= T::Balance::largest(),
{
    balance.lemma_amount_bounded();
    T::Balance::lemma_of_amount(balance.amount());
    T::Balance::lemma_amount_injective(balance, T::Balance::of_amount(balance.amount()));
}

/// None of three balances exceeds the largest amount.
proof fn lemma_balance_facts<T: Config>(a: T::Balance, b: T::Balance, c: T::Balance)
    ensures
        a.amount() <= T::Balance::largest(),
        b.amount() <= T::Balance::largest(),
        c.amount() <= T::Balance::largest(),
{
    a.lemma_amount_bounded();
    b.lemma_amount_bounded();
    c.lemma_amount_bounded();
}

/// A map from each account to its balance.
pub struct BalancesMap<T: Config>(core::marker::PhantomData<T>);

impl<T: Config> StorageMap for BalancesMap<T> {
    type Key = AccountId;

    type Value = AccountBalance<T>;

    /// The name `BalancesMap`, a separator, and the encoded account.
    open spec fn spec_raw_storage_key(key: AccountId) -> Seq<u8> {
        spec_map_key("BalancesMap", key.encoding())
    }

    proof fn lemma_raw_storage_key_injective(a: AccountId, b: AccountId) {
        lemma_map_key_injective("BalancesMap", a.encoding(), b.encoding());
        lemma_u32_encoding_injective(a.0, b.0);
    }

    fn raw_storage_key(key: AccountId) -> (raw: io_storage::Key) {
        map_key("BalancesMap", &key)
    }
}

/// The total issuance: one balance, meant to track the sum of the free and reserved
/// balances of all accounts.
pub struct TotalIssuance<T: Config>(core::marker::PhantomData<T>);

impl<T: Config> StorageValue for TotalIssuance<T> {
    type Value = T::Balance;

    /// The name `TotalIssuance`.
    open spec fn spec_raw_storage_key() -> Seq<u8> {
        spec_value_key("TotalIssuance")
    }

    fn raw_storage_key() -> (key: io_storage::Key) {
        value_key("TotalIssuance")
    }
}

/// The key of the total issuance is the key of no account.
pub proof fn lemma_issuance_key_apart<T: Config>(who: AccountId)
    ensures
        TotalIssuance::<T>::spec_raw_storage_key() != BalancesMap::<T>::spec_raw_storage_key(who),
{
    reveal_strlit("TotalIssuance");
    reveal_strlit("BalancesMap");
    assert(is_ascii("TotalIssuance"));
    assert(is_ascii("BalancesMap"));
    is_ascii_spec_bytes("TotalIssuance");
    is_ascii_spec_bytes("BalancesMap");
    let issuance = TotalIssuance::<T>::spec_raw_storage_key();
    let balance = BalancesMap::<T>::spec_raw_storage_key(who);
    assert(issuance[0] == 84);
    assert(balance[0] == 66);
}

/// What a call comes to: on success the new state, on failure the error as it is
/// dispatched and the state as it was.
pub open spec fn committed<T: Config>(change: Result<Cells, Error<T>>, before: Cells) -> (
    Outcome,
    Cells,
) {
    match change {
        Ok(after) => (Ok(()), after),
        Err(error) => (Err(error.dispatch_view()), before),
    }
}

/// The balance that `cells` hold for `who`, if the account exists.
pub open spec fn account<T: Config>(cells: Cells, who: AccountId) -> Option<AccountBalance<T>> {
    map_value_in::<BalancesMap<T>>(cells, who)
}

/// The cells with `balance` stored as the balance of `who`.
pub open spec fn with_account<T: Config>(
    cells: Cells,
    who: AccountId,
    balance: AccountBalance<T>,
) -> Cells {
    map_value_put::<BalancesMap<T>>(cells, who, Some(balance))
}

/// After the balance of `who` is written, `who` has that balance and every other account
/// has the balance it had.
pub proof fn lemma_account_after_write<T: Config>(
    cells: Cells,
    who: AccountId,
    balance: AccountBalance<T>,
    other: AccountId,
)
    ensures
        account::<T>(with_account::<T>(cells, who, balance), other) == if other == who {
            Some(balance)
        } else {
            account::<T>(cells, other)
        },
{
    if other == who {
        lemma_map_set_then_get::<BalancesMap<T>>(cells, who, balance);
    } else {
        lemma_map_put_keeps_others::<BalancesMap<T>>(cells, who, Some(balance), other);
    }
}

/// The balance of an account that has just been created with `amount`: all of it free.
pub open spec fn opening_balance<T: Config>(amount: T::Balance) -> AccountBalance<T> {
    AccountBalance { free: amount, reserved: T::Balance::of_amount(0) }
}

/// The implementations of this module.
pub struct Module<T: Config>(core::marker::PhantomData<T>);

impl<T: Config> Module<T> {
    /// The state after `sender` transfers `amount` to `dest`.
    ///
    /// The sender must exist, cover `amount` from its free balance and meet the floor
    /// afterwards. The destination receives on top of what it holds once the sender has
    /// paid: one that exists must be able to receive `amount`; one that does not is
    /// created with `amount`, which must reach the minimum. An account that transfers to
    /// itself ends with the balance it had.
    pub open spec fn after_transfer(
        cells: Cells,
        sender: AccountId,
        dest: AccountId,
        amount: T::Balance,
    ) -> Result<Cells, Error<T>> {
        match account::<T>(cells, sender) {
            None => Err(Error::DoesNotExist),
            Some(sender_balance) => match sender_balance.spec_transfer(amount) {
                Err(error) => Err(error),
                Ok(sender_after) => {
                    let between = with_account::<T>(cells, sender, sender_after);
                    match account::<T>(between, dest) {
                        Some(dest_balance) => match dest_balance.spec_receive(amount) {
                            Err(error) => Err(error),
                            Ok(dest_after) => Ok(with_account::<T>(between, dest, dest_after)),
                        },
                        None => if amount.amount() < minimum::<T>() {
                            Err(Error::InsufficientFunds)
                        } else {
                            Ok(with_account::<T>(between, dest, opening_balance::<T>(amount)))
                        },
                    }
                },
            },
        }
    }

    /// The state after `sender` transfers all of its free balance to `dest`.
    ///
    /// Both accounts must exist. The destination receives the sender's free balance on
    /// top of what it holds once the sender has paid, and must be able to receive it.
    /// The sender keeps its record and its reserved balance. An account that transfers
    /// everything to itself ends with the balance it had.
    pub open spec fn after_transfer_all(cells: Cells, sender: AccountId, dest: AccountId) -> Result<
        Cells,
        Error<T>,
    > {
        match account::<T>(cells, sender) {
            None => Err(Error::DoesNotExist),
            Some(sender_balance) => {
                let between = with_account::<T>(
                    cells,
                    sender,
                    AccountBalance::<T> {
                        free: T::Balance::of_amount(0),
                        reserved: sender_balance.reserved,
                    },
                );
                match account::<T>(between, dest) {
                    None => Err(Error::DoesNotExist),
                    Some(dest_balance) => match dest_balance.spec_receive(sender_balance.free) {
                        Err(error) => Err(error),
                        Ok(dest_after) => Ok(with_account::<T>(between, dest, dest_after)),
                    },
                }
            },
        }
    }

    /// The state after `sender` mints `amount` to `dest`.
    ///
    /// Only the minter may mint. A destination that does not exist is created with
    /// `amount`, and the total issuance is set to `amount`, whatever it was. Minting to a
    /// destination that exists succeeds and changes nothing.
    pub open spec fn after_mint(
        cells: Cells,
        sender: AccountId,
        dest: AccountId,
        amount: T::Balance,
    ) -> Result<Cells, Error<T>> {
        if sender != T::Minter::value() {
            Err(Error::NotAllowed)
        } else if account::<T>(cells, dest) is Some {
            Ok(cells)
        } else {
            Ok(
                with_account::<T>(
                    value_put::<TotalIssuance<T>>(cells, Some(amount)),
                    dest,
                    opening_balance::<T>(amount),
                ),
            )
        }
    }

    /// The state after `amount` of the free balance of `from` is reserved.
    pub open spec fn after_reserve(cells: Cells, from: AccountId, amount: T::Balance) -> Result<
        Cells,
        Error<T>,
    > {
        match account::<T>(cells, from) {
            None => Err(Error::DoesNotExist),
            Some(balance) => match balance.spec_reserve(amount) {
                Err(error) => Err(error),
                Ok(after) => Ok(with_account::<T>(cells, from, after)),
            },
        }
    }

    /// The state after `amount` of the reserved balance of `from` is made free again.
    pub open spec fn after_unreserve(cells: Cells, from: AccountId, amount: T::Balance) -> Result<
        Cells,
        Error<T>,
    > {
        match account::<T>(cells, from) {
            None => Err(Error::DoesNotExist),
            Some(balance) => match balance.spec_unreserve(amount) {
                Err(error) => Err(error),
                Ok(after) => Ok(with_account::<T>(cells, from, after)),
            },
        }
    }

    /// Writes `balance` as the balance of `who`, in one storage mutation.
    fn commit(store: &mut Storage, who: AccountId, balance: AccountBalance<T>)
        ensures
            final(store)@ == with_account::<T>(old(store)@, who, balance),
    {
        let write = |slot: &mut Option<AccountBalance<T>>|
            ensures
                *final(slot) == Some(balance),
            {
                *slot = Some(balance);
            };
        BalancesMap::<T>::mutate(store, who, write);
    }

    /// Transfers `amount` from `sender` to `dest`. See [`Call::Transfer`].
    pub fn transfer(store: &mut Storage, sender: AccountId, dest: AccountId, amount: T::Balance) -> (result:
        DispatchResult)
        ensures
            (outcome_of(result), final(store)@) == committed(
                Self::after_transfer(old(store)@, sender, dest, amount),
                old(store)@,
            ),
    {
        if !BalancesMap::<T>::is_present(store, sender) {
            return Err(DispatchError::from(Error::<T>::DoesNotExist));
        }
        let mut sender_account_balance = BalancesMap::<T>::get(store, sender).unwrap();
        match sender_account_balance.can_transfer(amount) {
            Ok(_) => {
                let _ = sender_account_balance.transfer(amount);
            },
            Err(error) => {
                return Err(error);
            },
        }
        let mut dest_account_balance: AccountBalance<T> = AccountBalance {
            free: amount,
            reserved: T::Balance::zero(),
        };
        proof {
            lemma_balance_is::<T>(dest_account_balance.reserved);
            lemma_account_after_write::<T>(store@, sender, sender_account_balance, dest);
        }
        if dest == sender || BalancesMap::<T>::is_present(store, dest) {
            // The destination receives on top of what it holds once the sender has paid.
            dest_account_balance = if dest == sender {
                sender_account_balance
            } else {
                BalancesMap::<T>::get(store, dest).unwrap()
            };
            match dest_account_balance.can_receive(amount) {
                Ok(_) => {
                    let _ = dest_account_balance.receive(amount);
                },
                Err(error) => {
                    return Err(error);
                },
            }
        } else {
            if !amount.at_least(&T::MinimumBalance::get()) {
                return Err(DispatchError::from(Error::<T>::InsufficientFunds));
            }
        }
        Self::commit(store, sender, sender_account_balance);
        Self::commit(store, dest, dest_account_balance);
        Ok(())
    }

    /// Transfers all of the free balance of `sender` to `dest`. See
    /// [`Call::TransferAll`].
    pub fn transfer_all(store: &mut Storage, sender: AccountId, dest: AccountId) -> (result:
        DispatchResult)
        ensures
            (outcome_of(result), final(store)@) == committed(
                Self::after_transfer_all(old(store)@, sender, dest),
                old(store)@,
            ),
    {
        if !BalancesMap::<T>::is_present(store, sender) {
            return Err(DispatchError::from(Error::<T>::DoesNotExist));
        }
        let mut sender_account_balance = BalancesMap::<T>::get(store, sender).unwrap();
        let amount = sender_account_balance.free;
        proof {
            lemma_balance_is::<T>(amount);
        }
        match sender_account_balance.can_transfer(amount) {
            Ok(_) => {
                let _ = sender_account_balance.transfer(amount);
            },
            Err(error) => {
                return Err(error);
            },
        }
        proof {
            lemma_account_after_write::<T>(store@, sender, sender_account_balance, dest);
        }
        if dest != sender && !BalancesMap::<T>::is_present(store, dest) {
            return Err(DispatchError::from(Error::<T>::DoesNotExist));
        }
        // The destination receives on top of what it holds once the sender has paid.
        let mut dest_account_balance = if dest == sender {
            sender_account_balance
        } else {
            BalancesMap::<T>::get(store, dest).unwrap()
        };
        match dest_account_balance.can_receive(amount) {
            Ok(_) => {
                let _ = dest_account_balance.receive(amount);
            },
            Err(error) => {
                return Err(error);
            },
        }
        Self::commit(store, sender, sender_account_balance);
        Self::commit(store, dest, dest_account_balance);
        Ok(())
    }

    /// Mints `amount` to `who`. See [`Call::Mint`].
    pub fn mint(store: &mut Storage, sender: AccountId, who: AccountId, amount: T::Balance) -> (result:
        DispatchResult)
        ensures
            (outcome_of(result), final(store)@) == committed(
                Self::after_mint(old(store)@, sender, who, amount),
                old(store)@,
            ),
    {
        if sender != T::Minter::get() {
            return Err(DispatchError::from(Error::<T>::NotAllowed));
        }
        if !BalancesMap::<T>::is_present(store, who) {
            TotalIssuance::<T>::set(store, amount);
            let new_account_balance: AccountBalance<T> = AccountBalance {
                free: amount,
                reserved: T::Balance::zero(),
            };
            proof {
                lemma_balance_is::<T>(new_account_balance.reserved);
            }
            Self::commit(store, who, new_account_balance);
        }
        Ok(())
    }

    /// Reserves exactly `amount` from the free balance of `from`.
    ///
    /// Fails with [`Error::DoesNotExist`] if the account does not exist, with
    /// [`Error::InsufficientFunds`] if its free balance does not cover `amount` or would
    /// fall under the minimum without reaching zero, and with [`Error::Overflow`] if its
    /// reserved balance would overflow.
    pub fn reserve(store: &mut Storage, from: AccountId, amount: T::Balance) -> (result:
        DispatchResult)
        ensures
            (outcome_of(result), final(store)@) == committed(
                Self::after_reserve(old(store)@, from, amount),
                old(store)@,
            ),
    {
        if !BalancesMap::<T>::is_present(store, from) {
            return Err(DispatchError::from(Error::<T>::DoesNotExist));
        }
        let mut reserve_account_balance = BalancesMap::<T>::get(store, from).unwrap();
        match reserve_account_balance.reserve(amount) {
            Ok(_) => {},
            Err(error) => {
                return Err(error);
            },
        }
        Self::commit(store, from, reserve_account_balance);
        Ok(())
    }

    /// Unreserves exactly `amount` from the reserved balance of `from`, returning it to
    /// the free balance.
    ///
    /// Fails with [`Error::DoesNotExist`] if the account does not exist, with
    /// [`Error::InsufficientFunds`] if its reserved balance does not cover `amount`, and
    /// with [`Error::Overflow`] if its free balance would overflow.
    pub fn unreserve(store: &mut Storage, from: AccountId, amount: T::Balance) -> (result:
        DispatchResult)
        ensures
            (outcome_of(result), final(store)@) == committed(
                Self::after_unreserve(old(store)@, from, amount),
                old(store)@,
            ),
    {
        if !BalancesMap::<T>::is_present(store, from) {
            return Err(DispatchError::from(Error::<T>::DoesNotExist));
        }
        let mut unreserve_account_balance = BalancesMap::<T>::get(store, from).unwrap();
        match unreserve_account_balance.unreserve(amount) {
            Ok(_) => {},
            Err(error) => {
                return Err(error);
            },
        }
        Self::commit(store, from, unreserve_account_balance);
        Ok(())
    }
}

/// The calls of this module: its operations with their arguments, all but the sender.
pub enum Call<T: Config> {
    /// Mint `amount` of tokens to `dest`.
    ///
    /// If `dest` does not exist it is created with `amount`, and the total issuance is
    /// set to `amount`. If it exists, nothing changes.
    ///
    /// Fails with [`Error::NotAllowed`] if the sender is not allowed to mint.
    Mint { dest: AccountId, amount: T::Balance },
    /// Transfer `amount` to `dest`.
    ///
    /// The sender must exist; `dest` may be created in the process. The sender must end
    /// with no free balance or at least the minimum, and `dest` with at least the
    /// minimum.
    ///
    /// Fails with [`Error::DoesNotExist`] if the sender does not exist, with
    /// [`Error::InsufficientFunds`] if either account would end under its floor, and with
    /// [`Error::Overflow`] if the free balance of `dest` would overflow.
    Transfer { dest: AccountId, amount: T::Balance },
    /// Transfer all of the sender's free balance to `dest`. The sender keeps its record
    /// and its reserved balance.
    ///
    /// Fails with [`Error::DoesNotExist`] if the sender or `dest` does not exist, with
    /// [`Error::InsufficientFunds`] if `dest` would end under the minimum, and with
    /// [`Error::Overflow`] if the free balance of `dest` would overflow.
    TransferAll { dest: AccountId },
}

impl<T: Config> Call<T> {
    /// The state after this call is dispatched for `sender`.
    pub open spec fn after(self, cells: Cells, sender: AccountId) -> Result<Cells, Error<T>> {
        match self {
            Call::Mint { dest, amount } => Module::<T>::after_mint(cells, sender, dest, amount),
            Call::Transfer { dest, amount } => Module::<T>::after_transfer(
                cells,
                sender,
                dest,
                amount,
            ),
            Call::TransferAll { dest } => Module::<T>::after_transfer_all(cells, sender, dest),
        }
    }
}

impl<T: Config> Dispatchable for Call<T> {
    open spec fn spec_dispatch(self, cells: Cells, sender: AccountId) -> (Outcome, Cells) {
        committed(self.after(cells, sender), cells)
    }

    fn dispatch(self, store: &mut Storage, sender: AccountId) -> (result: DispatchResult) {
        match self {
            Call::Mint { dest, amount } => Module::<T>::mint(store, sender, dest, amount),
            Call::Transfer { dest, amount } => Module::<T>::transfer(store, sender, dest, amount),
            Call::TransferAll { dest } => Module::<T>::transfer_all(store, sender, dest),
        }
    }
}

impl<T: Config> CryptoCurrency for Module<T> {
    type Balance = T::Balance;

    open spec fn spec_transfer(cells: Cells, from: AccountId, to: AccountId, amount: T::Balance) -> (
        Outcome,
        Cells,
    ) {
        committed(Module::<T>::after_transfer(cells, from, to, amount), cells)
    }

    open spec fn spec_reserve(cells: Cells, from: AccountId, amount: T::Balance) -> (
        Outcome,
        Cells,
    ) {
        committed(Module::<T>::after_reserve(cells, from, amount), cells)
    }

    open spec fn spec_free_balance(cells: Cells, of: AccountId) -> Option<T::Balance> {
        match account::<T>(cells, of) {
            Some(balance) => Some(balance.free),
            None => None,
        }
    }

    open spec fn spec_reserved_balance(cells: Cells, of: AccountId) -> Option<T::Balance> {
        match account::<T>(cells, of) {
            Some(balance) => Some(balance.reserved),
            None => None,
        }
    }

    fn transfer(store: &mut Storage, from: AccountId, to: AccountId, amount: T::Balance) -> (result:
        DispatchResult) {
        Module::<T>::transfer(store, from, to, amount)
    }

    fn reserve(store: &mut Storage, from: AccountId, amount: T::Balance) -> (result:
        DispatchResult) {
        Module::<T>::reserve(store, from, amount)
    }

    fn free_balance(store: &Storage, of: AccountId) -> (balance: Option<T::Balance>) {
        match BalancesMap::<T>::get(store, of) {
            Some(balance) => Some(balance.free),
            None => None,
        }
    }

    fn reserved_balance(store: &Storage, of: AccountId) -> (balance: Option<T::Balance>) {
        match BalancesMap::<T>::get(store, of) {
            Some(balance) => Some(balance.reserved),
            None => None,
        }
    }
}

} // verus!
