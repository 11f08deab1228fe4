//! What all modules share: account identifiers, dispatch and its errors, typed storage
//! over the byte store, and the interfaces of a balance and of a currency.

use crate::l_mini_substrate::codec::{decode, decoded, lemma_decode_encode, Decode, Encode};
use crate::l_mini_substrate::io_storage;
use crate::l_mini_substrate::io_storage::{copy_bytes, Cells, Storage};
use vstd::prelude::*;
use vstd::string::{StrSliceExecFns, StringSliceAdditionalSpecFns};

pub use crate::get::Get;

verus! {

/// The identifier of an account. It is encoded as the number it wraps.
#[derive(Clone, Copy, PartialEq, Eq, Structural)]
pub struct AccountId(pub u32);

impl Encode for AccountId {
    open spec fn encoding(&self) -> Seq<u8> {
        self.0.encoding()
    }

    fn encode(&self) -> (bytes: Vec<u8>) {
        self.0.encode()
    }
}

impl Decode for AccountId {
    open spec fn decoding(bytes: Seq<u8>) -> Option<(AccountId, nat)> {
        match u32::decoding(bytes) {
            Some((number, taken)) => Some((AccountId(number), taken)),
            None => None,
        }
    }

    proof fn lemma_decoding_fits(bytes: Seq<u8>) {
        u32::lemma_decoding_fits(bytes);
    }

    proof fn lemma_round_trip(value: AccountId, rest: Seq<u8>) {
        u32::lemma_round_trip(value.0, rest);
    }

    fn decode_front(bytes: &[u8]) -> (read: Option<(AccountId, usize)>) {
        match u32::decode_front(bytes) {
            Some((number, taken)) => Some((AccountId(number), taken)),
            None => None,
        }
    }
}

/// The errors that can occur during dispatch.
#[derive(Debug, PartialEq)]
pub enum DispatchError {
    /// An error that happened in the module `module_id`, for the given `reason`.
    Module { module_id: &'static str, reason: String },
    /// Any other error, with an explanation.
    Other(&'static str),
}

/// What a [`DispatchError`] says, as plain text.
pub enum DispatchErrorView {
    /// An error of the module `module_id`, for the given `reason`.
    Module { module_id: Seq<char>, reason: Seq<char> },
    /// Any other error, with an explanation.
    Other(Seq<char>),
}

impl View for DispatchError {
    type V = DispatchErrorView;

    open spec fn view(&self) -> DispatchErrorView {
        match self {
            DispatchError::Module { module_id, reason } => DispatchErrorView::Module {
                module_id: module_id@,
                reason: reason@,
            },
            DispatchError::Other(explanation) => DispatchErrorView::Other(explanation@),
        }
    }
}

impl Clone for DispatchError {
    /// A copy that says the same.
    fn clone(&self) -> (copy: DispatchError)
        ensures
            copy@ == self@,
    {
        match self {
            DispatchError::Module { module_id, reason } => DispatchError::Module {
                module_id: *module_id,
                reason: reason.as_str().to_owned(),
            },
            DispatchError::Other(explanation) => DispatchError::Other(*explanation),
        }
    }
}

/// The final return type of all dispatch functions.
pub type DispatchResult = Result<(), DispatchError>;

/// What a dispatch returned, with the error as plain text.
pub type Outcome = Result<(), DispatchErrorView>;

/// The outcome that a [`DispatchResult`] stands for.
pub open spec fn outcome_of(result: DispatchResult) -> Outcome {
    match result {
        Ok(_) => Ok(()),
        Err(error) => Err(error@),
    }
}

/// Something that can be dispatched: a call, which together with a sender is applied to
/// the state exactly once.
pub trait Dispatchable: Sized {
    /// The outcome of dispatching this call on behalf of `sender` in the state `cells`,
    /// and the state it leaves. Dispatch is a function of these three alone.
    spec fn spec_dispatch(self, cells: Cells, sender: AccountId) -> (Outcome, Cells);

    /// Dispatches this call on behalf of `sender`.
    fn dispatch(self, store: &mut Storage, sender: AccountId) -> (result: DispatchResult)
        ensures
            (outcome_of(result), final(store)@) == self.spec_dispatch(old(store)@, sender),
    ;
}

/// The typed value that `cells` keep under `raw_key`, if there is one that can be read.
pub open spec fn read_at<V: Decode>(cells: Cells, raw_key: Seq<u8>) -> Option<V> {
    if cells.contains_key(raw_key) {
        decoded::<V>(cells[raw_key])
    } else {
        None
    }
}

/// The cells after `slot` is written back under `raw_key`: a value is stored encoded, no
/// value clears the key.
pub open spec fn write_at<V: Encode>(cells: Cells, raw_key: Seq<u8>, slot: Option<V>) -> Cells {
    match slot {
        Some(value) => cells.insert(raw_key, value.encoding()),
        None => cells.remove(raw_key),
    }
}

/// A single typed value kept in the store under one fixed key.
///
/// An implementor names the key; reading, writing and changing the value come with it.
/// Every read decodes the stored bytes and every write encodes: nothing is cached. Stored
/// bytes that do not decode count as no value.
pub trait StorageValue {
    /// The type of the value that is kept.
    type Value: Encode + Decode;

    /// The raw key under which the value is kept.
    spec fn spec_raw_storage_key() -> Seq<u8>;

    /// The raw key under which the value is kept.
    fn raw_storage_key() -> (key: io_storage::Key)
        ensures
            key@ == Self::spec_raw_storage_key(),
    ;

    /// Gets the value. Returns `None` if there is none.
    fn get(store: &Storage) -> (value: Option<Self::Value>)
        ensures
            value == read_at::<Self::Value>(store@, Self::spec_raw_storage_key()),
    {
        let key = Self::raw_storage_key();
        match io_storage::get(store, key) {
            Some(raw_value) => decode::<Self::Value>(raw_value.as_slice()),
            None => None,
        }
    }

    /// Whether there is a value in the store.
    fn is_present(store: &Storage) -> (present: bool)
        ensures
            present == read_at::<Self::Value>(store@, Self::spec_raw_storage_key()).is_some(),
    {
        Self::get(store).is_some()
    }

    /// Stores a new value.
    fn set(store: &mut Storage, new_value: Self::Value)
        ensures
            final(store)@ == write_at::<Self::Value>(old(store)@, Self::spec_raw_storage_key(), Some(new_value)),
    {
        let key = Self::raw_storage_key();
        io_storage::set(store, key, new_value.encode())
    }

    /// Removes the value, if there is one.
    fn clear(store: &mut Storage)
        ensures
            final(store)@ == write_at::<Self::Value>(old(store)@, Self::spec_raw_storage_key(), None),
    {
        let key = Self::raw_storage_key();
        io_storage::clear(store, key)
    }

    /// Changes the value in place. `f` sees `None` if there is no value and `Some` if
    /// there is one. What `f` leaves is written back: `Some` is stored, `None` removes
    /// the value.
    fn mutate<F: FnOnce(&mut Option<Self::Value>)>(store: &mut Storage, f: F)
        requires
            forall|slot: &mut Option<Self::Value>|
                *slot == read_at::<Self::Value>(old(store)@, Self::spec_raw_storage_key())
                    ==> f.requires((slot,)),
        ensures
            exists|slot: &mut Option<Self::Value>|
                *slot == read_at::<Self::Value>(old(store)@, Self::spec_raw_storage_key())
                    && f.ensures((slot,), ())
                    && final(store)@ == write_at::<Self::Value>(
                    old(store)@,
                    Self::spec_raw_storage_key(),
                    *final(slot),
                ),
    {
        let mut storage_value = Self::get(store);
        f(&mut storage_value);
        match storage_value {
            Some(new_value) => Self::set(store, new_value),
            None => Self::clear(store),
        }
    }
}

/// A typed map kept in the store: one stored value for each key of the map.
///
/// An implementor names the raw key of each map key, and shows that no two map keys share
/// one; reading, writing and changing the values come with it. Every read decodes the
/// stored bytes and every write encodes: nothing is cached. Stored bytes that do not
/// decode count as no value.
pub trait StorageMap {
    /// The key type of the map.
    type Key: Encode + Clone;

    /// The value type of the map.
    type Value: Encode + Decode;

    /// The raw key under which the value of `key` is kept.
    spec fn spec_raw_storage_key(key: Self::Key) -> Seq<u8>;

    /// Two different keys of the map are kept under different raw keys.
    proof fn lemma_raw_storage_key_injective(a: Self::Key, b: Self::Key)
        requires
            Self::spec_raw_storage_key(a) == Self::spec_raw_storage_key(b),
        ensures
            a == b,
    ;

    /// The raw key under which the value of `key` is kept.
    fn raw_storage_key(key: Self::Key) -> (raw: io_storage::Key)
        ensures
            raw@ == Self::spec_raw_storage_key(key),
    ;

    /// Gets the value associated with `key`. Returns `None` if there is none.
    fn get(store: &Storage, key: Self::Key) -> (value: Option<Self::Value>)
        ensures
            value == read_at::<Self::Value>(store@, Self::spec_raw_storage_key(key)),
    {
        let key = Self::raw_storage_key(key);
        match io_storage::get(store, key) {
            Some(raw_value) => decode::<Self::Value>(raw_value.as_slice()),
            None => None,
        }
    }

    /// Whether there is a value associated with `key`.
    fn is_present(store: &Storage, key: Self::Key) -> (present: bool)
        ensures
            present == read_at::<Self::Value>(store@, Self::spec_raw_storage_key(key)).is_some(),
    {
        Self::get(store, key).is_some()
    }

    /// Stores `value` as the value associated with `key`.
    fn set(store: &mut Storage, key: Self::Key, value: Self::Value)
        ensures
            final(store)@ == write_at::<Self::Value>(old(store)@, Self::spec_raw_storage_key(key), Some(value)),
    {
        let key = Self::raw_storage_key(key);
        io_storage::set(store, key, value.encode())
    }

    /// Removes the value associated with `key`, if there is one.
    fn clear(store: &mut Storage, key: Self::Key)
        ensures
            final(store)@ == write_at::<Self::Value>(old(store)@, Self::spec_raw_storage_key(key), None),
    {
        let key = Self::raw_storage_key(key);
        io_storage::clear(store, key)
    }

    /// Changes the value associated with `key` in place. `f` sees `None` if there is no
    /// value and `Some` if there is one. What `f` leaves is written back: `Some` is
    /// stored, `None` removes the value.
    fn mutate<F: FnOnce(&mut Option<Self::Value>)>(store: &mut Storage, key: Self::Key, f: F)
        requires
            forall|slot: &mut Option<Self::Value>|
                *slot == read_at::<Self::Value>(old(store)@, Self::spec_raw_storage_key(key))
                    ==> f.requires((slot,)),
        ensures
            exists|slot: &mut Option<Self::Value>|
                *slot == read_at::<Self::Value>(old(store)@, Self::spec_raw_storage_key(key))
                    && f.ensures((slot,), ())
                    && final(store)@ == write_at::<Self::Value>(
                    old(store)@,
                    Self::spec_raw_storage_key(key),
                    *final(slot),
                ),
    {
        // The raw key is derived once; the value is read and written back through it.
        let storage_key = Self::raw_storage_key(key);
        let mut storage_value = match io_storage::get(store, copy_bytes(&storage_key)) {
            Some(raw_value) => decode::<Self::Value>(raw_value.as_slice()),
            None => None,
        };
        f(&mut storage_value);
        let ghost left = storage_value;
        match storage_value {
            Some(new_value) => io_storage::set(store, storage_key, new_value.encode()),
            None => io_storage::clear(store, storage_key),
        }
        assert(store@ == write_at::<Self::Value>(
            old(store)@,
            Self::spec_raw_storage_key(key),
            left,
        ));
    }
}

/// The value that `cells` keep for the storage value `S`, if there is one that can be
/// read.
pub open spec fn value_in<S: StorageValue>(cells: Cells) -> Option<S::Value> {
    read_at::<S::Value>(cells, S::spec_raw_storage_key())
}

/// The cells after `slot` is written back for the storage value `S`: a value is stored,
/// no value clears the key.
pub open spec fn value_put<S: StorageValue>(cells: Cells, slot: Option<S::Value>) -> Cells {
    write_at::<S::Value>(cells, S::spec_raw_storage_key(), slot)
}

/// The value that `cells` keep for `key` in the storage map `S`, if there is one that can
/// be read.
pub open spec fn map_value_in<S: StorageMap>(cells: Cells, key: S::Key) -> Option<S::Value> {
    read_at::<S::Value>(cells, S::spec_raw_storage_key(key))
}

/// The cells after `slot` is written back for `key` in the storage map `S`: a value is
/// stored, no value clears the key.
pub open spec fn map_value_put<S: StorageMap>(
    cells: Cells,
    key: S::Key,
    slot: Option<S::Value>,
) -> Cells {
    write_at::<S::Value>(cells, S::spec_raw_storage_key(key), slot)
}

/// A stored value that was just set is the value that is read.
pub proof fn lemma_value_set_then_get<S: StorageValue>(cells: Cells, value: S::Value)
    ensures
        value_in::<S>(value_put::<S>(cells, Some(value))) == Some(value),
{
    lemma_decode_encode::<S::Value>(value);
}

/// After a stored value was cleared, none is read.
pub proof fn lemma_value_clear_then_get<S: StorageValue>(cells: Cells)
    ensures
        value_in::<S>(value_put::<S>(cells, None)) is None,
{
}

/// In a map, a value that was just set for a key is the value that is read for it.
pub proof fn lemma_map_set_then_get<S: StorageMap>(cells: Cells, key: S::Key, value: S::Value)
    ensures
        map_value_in::<S>(map_value_put::<S>(cells, key, Some(value)), key) == Some(value),
{
    lemma_decode_encode::<S::Value>(value);
}

/// In a map, after the value of a key was cleared, none is read for it.
pub proof fn lemma_map_clear_then_get<S: StorageMap>(cells: Cells, key: S::Key)
    ensures
        map_value_in::<S>(map_value_put::<S>(cells, key, None), key) is None,
{
}

/// In a map, writing the value of one key leaves what is read for every other key.
pub proof fn lemma_map_put_keeps_others<S: StorageMap>(
    cells: Cells,
    key: S::Key,
    slot: Option<S::Value>,
    other: S::Key,
)
    requires
        other != key,
    ensures
        map_value_in::<S>(map_value_put::<S>(cells, key, slot), other) == map_value_in::<S>(
            cells,
            other,
        ),
{
    if S::spec_raw_storage_key(other) == S::spec_raw_storage_key(key) {
        S::lemma_raw_storage_key_injective(other, key);
    }
}

/// The byte that stands between the name of a storage map and an encoded key: `_`.
pub const KEY_SEPARATOR: u8 = 95;

/// The raw key of the storage value called `name`: the bytes of the name, and no more.
pub open spec fn spec_value_key(name: &str) -> Seq<u8> {
    name.spec_bytes()
}

/// The raw key of a key of the storage map called `name`: the bytes of the name, one
/// separator byte, then the encoded key.
pub open spec fn spec_map_key(name: &str, encoded_key: Seq<u8>) -> Seq<u8> {
    name.spec_bytes().push(KEY_SEPARATOR) + encoded_key
}

/// The raw key of the storage value called `name`.
pub fn value_key(name: &str) -> (raw: io_storage::Key)
    ensures
        raw@ == spec_value_key(name),
{
    name.as_bytes_vec()
}

/// The raw key of `key` in the storage map called `name`.
pub fn map_key<K: Encode>(name: &str, key: &K) -> (raw: io_storage::Key)
    ensures
        raw@ == spec_map_key(name, key.encoding()),
{
    let mut raw = name.as_bytes_vec();
    raw.push(KEY_SEPARATOR);
    let mut encoded = key.encode();
    raw.append(&mut encoded);
    raw
}

/// Within one storage map, keys with different encodings have different raw keys.
pub proof fn lemma_map_key_injective(name: &str, a: Seq<u8>, b: Seq<u8>)
    requires
        spec_map_key(name, a) == spec_map_key(name, b),
    ensures
        a == b,
{
    let prefix = name.spec_bytes().push(KEY_SEPARATOR);
    assert((prefix + a).subrange(prefix.len() as int, (prefix + a).len() as int) =~= a);
    assert((prefix + b).subrange(prefix.len() as int, (prefix + b).len() as int) =~= b);
}

/// A numeric type that can hold a balance.
///
/// A balance stands for a natural number, its amount, and no two balances stand for the
/// same one. Addition and subtraction are checked: they give no result in place of one
/// that the type cannot hold.
pub trait BalanceT: Copy + Encode + Decode {
    /// The amount that this balance stands for.
    spec fn amount(self) -> nat;

    /// The largest amount that the type can hold.
    spec fn largest() -> nat;

    /// No balance exceeds the largest amount.
    proof fn lemma_amount_bounded(self)
        ensures
            self.amount() <= Self::largest(),
    ;

    /// Balances of the same amount are equal.
    proof fn lemma_amount_injective(a: Self, b: Self)
        requires
            a.amount() == b.amount(),
        ensures
            a == b,
    ;

    /// The balance that stands for `amount`, where the type can hold it.
    spec fn of_amount(amount: nat) -> Self;

    /// Every amount up to the largest has its balance.
    proof fn lemma_of_amount(amount: nat)
        requires
            amount <= Self::largest(),
        ensures
            Self::of_amount(amount).amount() == amount,
    ;

    /// The balance of amount zero.
    fn zero() -> (balance: Self)
        ensures
            balance.amount() == 0,
    ;

    /// Whether this is the balance of amount zero.
    fn is_zero(&self) -> (zero: bool)
        ensures
            zero == (self.amount() == 0),
    ;

    /// The sum of two balances, or `None` if the type cannot hold it.
    fn checked_add(&self, v: &Self) -> (sum: Option<Self>)
        ensures
            match sum {
                Some(balance) => balance.amount() == self.amount() + v.amount(),
                None => self.amount() + v.amount() > Self::largest(),
            },
    ;

    /// The difference of two balances, or `None` if `v` is the larger one.
    fn checked_sub(&self, v: &Self) -> (difference: Option<Self>)
        ensures
            match difference {
                Some(balance) => balance.amount() + v.amount() == self.amount(),
                None => self.amount() < v.amount(),
            },
    ;

    /// Whether this balance is no smaller than `other`.
    fn at_least(&self, other: &Self) -> (holds: bool)
        ensures
            holds == (self.amount() >= other.amount()),
    ;
}

/// The sum that `num::CheckedAdd::checked_add` gives for two `u64` values: their sum, or
/// nothing where it does not fit in a `u64`.
#[verifier::external_body]
fn num_checked_add_u64(a: u64, b: u64) -> (sum: Option<u64>)
    ensures
        sum == if a + b <= u64::MAX {
            Some((a + b) as u64)
        } else {
            None
        },
{
    num::CheckedAdd::checked_add(&a, &b)
}

/// The difference that `num::CheckedSub::checked_sub` gives for two `u64` values: `a - b`,
/// or nothing where `b` is the larger one.
#[verifier::external_body]
fn num_checked_sub_u64(a: u64, b: u64) -> (difference: Option<u64>)
    ensures
        difference == if a >= b {
            Some((a - b) as u64)
        } else {
            None
        },
{
    num::CheckedSub::checked_sub(&a, &b)
}

/// The `u64` that `num::Zero::zero` gives: 0.
#[verifier::external_body]
fn num_zero_u64() -> (zero: u64)
    ensures
        zero == 0,
{
    num::Zero::zero()
}

/// What `num::Zero::is_zero` says of a `u64`: whether it is 0.
#[verifier::external_body]
fn num_is_zero_u64(value: u64) -> (zero: bool)
    ensures
        zero == (value == 0),
{
    num::Zero::is_zero(&value)
}

impl BalanceT for u64 {
    open spec fn amount(self) -> nat {
        self as nat
    }

    open spec fn largest() -> nat {
        u64::MAX as nat
    }

    proof fn lemma_amount_bounded(self) {
    }

    proof fn lemma_amount_injective(a: u64, b: u64) {
    }

    open spec fn of_amount(amount: nat) -> u64 {
        amount as u64
    }

    proof fn lemma_of_amount(amount: nat) {
    }

    fn zero() -> (balance: u64) {
        num_zero_u64()
    }

    fn is_zero(&self) -> (zero: bool) {
        num_is_zero_u64(*self)
    }

    fn checked_add(&self, v: &u64) -> (sum: Option<u64>) {
        num_checked_add_u64(*self, *v)
    }

    fn checked_sub(&self, v: &u64) -> (difference: Option<u64>) {
        num_checked_sub_u64(*self, *v)
    }

    fn at_least(&self, other: &u64) -> (holds: bool) {
        *self >= *other
    }
}

/// The basic functionality of a currency, as other modules see it: they can move and
/// reserve funds and read balances, and nothing else.
pub trait CryptoCurrency {
    /// The numeric type used to represent balances.
    type Balance: BalanceT;

    /// The outcome of a transfer of `amount` from `from` to `to` in the state `cells`,
    /// and the state it leaves.
    spec fn spec_transfer(cells: Cells, from: AccountId, to: AccountId, amount: Self::Balance) -> (
        Outcome,
        Cells,
    );

    /// The outcome of reserving `amount` from `from` in the state `cells`, and the state
    /// it leaves.
    spec fn spec_reserve(cells: Cells, from: AccountId, amount: Self::Balance) -> (Outcome, Cells);

    /// The free balance of `of` in the state `cells`, `None` if the account does not
    /// exist.
    spec fn spec_free_balance(cells: Cells, of: AccountId) -> Option<Self::Balance>;

    /// The reserved balance of `of` in the state `cells`, `None` if the account does not
    /// exist.
    spec fn spec_reserved_balance(cells: Cells, of: AccountId) -> Option<Self::Balance>;

    /// Transfers `amount` from `from` to `to`.
    fn transfer(store: &mut Storage, from: AccountId, to: AccountId, amount: Self::Balance) -> (result:
        DispatchResult)
        ensures
            (outcome_of(result), final(store)@) == Self::spec_transfer(
                old(store)@,
                from,
                to,
                amount,
            ),
    ;

    /// Reserves exactly `amount` from `from`.
    fn reserve(store: &mut Storage, from: AccountId, amount: Self::Balance) -> (result:
        DispatchResult)
        ensures
            (outcome_of(result), final(store)@) == Self::spec_reserve(old(store)@, from, amount),
    ;

    /// Gets the free balance of an account, `None` if it does not exist.
    fn free_balance(store: &Storage, of: AccountId) -> (balance: Option<Self::Balance>)
        ensures
            balance == Self::spec_free_balance(store@, of),
    ;

    /// Gets the reserved balance of an account, `None` if it does not exist.
    fn reserved_balance(store: &Storage, of: AccountId) -> (balance: Option<Self::Balance>)
        ensures
            balance == Self::spec_reserved_balance(store@, of),
    ;
}

} // verus!
