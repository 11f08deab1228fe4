//! What holds of the ledger whatever calls are dispatched: the floor under every free
//! balance, and the total issuance as the sum of all balances.

use crate::l_mini_substrate::currency_module::{
    account, committed, floor_met, lemma_account_after_write, lemma_issuance_key_apart,
    lemma_receive_amounts, lemma_reserve_amounts, lemma_transfer_amounts,
    lemma_unreserve_amounts, opening_balance, with_account, AccountBalance, Call, Config,
    Module, TotalIssuance,
};
use crate::l_mini_substrate::io_storage::Cells;
use crate::l_mini_substrate::runtime::{MyRuntime, RuntimeCall};
use crate::l_mini_substrate::shared::{
    lemma_value_set_then_get, value_in, value_put, AccountId, BalanceT, Dispatchable, Get,
};
use crate::l_mini_substrate::staking_module;
use vstd::prelude::*;

verus! {

/// Whether `who` has no account in `cells`, or one with a free balance of nothing or of
/// at least the minimum.
pub open spec fn floor_holds_for<T: Config>(cells: Cells, who: AccountId) -> bool {
    account::<T>(cells, who) matches Some(balance) ==> floor_met::<T>(balance.free.amount())
}

/// Whether every account in `cells` has a free balance of nothing or of at least the
/// minimum.
pub open spec fn floor_holds<T: Config>(cells: Cells) -> bool {
    forall|who: AccountId| #[trigger] floor_holds_for::<T>(cells, who)
}

/// Writing the total issuance changes the balance of no account.
pub proof fn lemma_account_after_issuance<T: Config>(
    cells: Cells,
    issued: Option<T::Balance>,
    who: AccountId,
)
    ensures
        account::<T>(value_put::<TotalIssuance<T>>(cells, issued), who) == account::<T>(
            cells,
            who,
        ),
{
    lemma_issuance_key_apart::<T>(who);
}

/// Writing the balance of an account leaves the total issuance as it was.
pub proof fn lemma_issuance_after_write<T: Config>(
    cells: Cells,
    who: AccountId,
    balance: AccountBalance<T>,
)
    ensures
        value_in::<TotalIssuance<T>>(with_account::<T>(cells, who, balance)) == value_in::<
            TotalIssuance<T>,
        >(cells),
{
    lemma_issuance_key_apart::<T>(who);
}

/// The floor still holds after a balance that meets it is written.
pub proof fn lemma_write_keeps_floor<T: Config>(
    cells: Cells,
    who: AccountId,
    balance: AccountBalance<T>,
)
    requires
        floor_holds::<T>(cells),
        floor_met::<T>(balance.free.amount()),
    ensures
        floor_holds::<T>(with_account::<T>(cells, who, balance)),
{
    let after = with_account::<T>(cells, who, balance);
    assert forall|other: AccountId| #[trigger] floor_holds_for::<T>(after, other) by {
        lemma_account_after_write::<T>(cells, who, balance, other);
        assert(floor_holds_for::<T>(cells, other));
    }
}

/// Whether a mint creates an account under the floor: the minter mints, to an account
/// that does not exist, an amount that is neither nothing nor the minimum or more.
pub open spec fn mints_under_floor<T: Config>(
    cells: Cells,
    sender: AccountId,
    dest: AccountId,
    amount: T::Balance,
) -> bool {
    sender == T::Minter::value() && account::<T>(cells, dest) is None && !floor_met::<T>(
        amount.amount(),
    )
}

/// A transfer keeps the floor under every free balance.
pub proof fn lemma_transfer_keeps_floor<T: Config>(
    cells: Cells,
    sender: AccountId,
    dest: AccountId,
    amount: T::Balance,
)
    requires
        floor_holds::<T>(cells),
    ensures
        floor_holds::<T>(committed(Module::<T>::after_transfer(cells, sender, dest, amount), cells).1),
{
    if let Ok(after) = Module::<T>::after_transfer(cells, sender, dest, amount) {
        let sender_balance = account::<T>(cells, sender)->Some_0;
        let sender_after = sender_balance.spec_transfer(amount)->Ok_0;
        lemma_transfer_amounts::<T>(sender_balance, amount);
        lemma_write_keeps_floor::<T>(cells, sender, sender_after);
        let between = with_account::<T>(cells, sender, sender_after);
        match account::<T>(between, dest) {
            Some(dest_balance) => {
                lemma_receive_amounts::<T>(dest_balance, amount);
                lemma_write_keeps_floor::<T>(between, dest, dest_balance.spec_receive(amount)->Ok_0);
            },
            None => {
                lemma_write_keeps_floor::<T>(between, dest, opening_balance::<T>(amount));
            },
        }
    }
}

/// A transfer of everything keeps the floor under every free balance.
pub proof fn lemma_transfer_all_keeps_floor<T: Config>(
    cells: Cells,
    sender: AccountId,
    dest: AccountId,
)
    requires
        floor_holds::<T>(cells),
    ensures
        floor_holds::<T>(committed(Module::<T>::after_transfer_all(cells, sender, dest), cells).1),
{
    if let Ok(after) = Module::<T>::after_transfer_all(cells, sender, dest) {
        let sender_balance = account::<T>(cells, sender)->Some_0;
        let sender_after = AccountBalance::<T> {
            free: T::Balance::of_amount(0),
            reserved: sender_balance.reserved,
        };
        T::Balance::lemma_of_amount(0);
        lemma_write_keeps_floor::<T>(cells, sender, sender_after);
        let between = with_account::<T>(cells, sender, sender_after);
        let dest_balance = account::<T>(between, dest)->Some_0;
        lemma_receive_amounts::<T>(dest_balance, sender_balance.free);
        lemma_write_keeps_floor::<T>(
            between,
            dest,
            dest_balance.spec_receive(sender_balance.free)->Ok_0,
        );
    }
}

/// A mint keeps the floor under every free balance, unless it creates an account under
/// the floor.
pub proof fn lemma_mint_keeps_floor<T: Config>(
    cells: Cells,
    sender: AccountId,
    dest: AccountId,
    amount: T::Balance,
)
    requires
        floor_holds::<T>(cells),
        !mints_under_floor::<T>(cells, sender, dest, amount),
    ensures
        floor_holds::<T>(committed(Module::<T>::after_mint(cells, sender, dest, amount), cells).1),
{
    if sender == T::Minter::value() && account::<T>(cells, dest) is None {
        let issued = value_put::<TotalIssuance<T>>(cells, Some(amount));
        assert forall|other: AccountId| #[trigger] floor_holds_for::<T>(issued, other) by {
            lemma_account_after_issuance::<T>(cells, Some(amount), other);
            assert(floor_holds_for::<T>(cells, other));
        }
        lemma_write_keeps_floor::<T>(issued, dest, opening_balance::<T>(amount));
    }
}

/// A reservation keeps the floor under every free balance.
pub proof fn lemma_reserve_keeps_floor<T: Config>(cells: Cells, from: AccountId, amount: T::Balance)
    requires
        floor_holds::<T>(cells),
    ensures
        floor_holds::<T>(committed(Module::<T>::after_reserve(cells, from, amount), cells).1),
{
    if let Ok(after) = Module::<T>::after_reserve(cells, from, amount) {
        let balance = account::<T>(cells, from)->Some_0;
        lemma_reserve_amounts::<T>(balance, amount);
        lemma_write_keeps_floor::<T>(cells, from, balance.spec_reserve(amount)->Ok_0);
    }
}

/// An unreservation keeps the floor under every free balance, where the free balance
/// that it leaves meets the floor. No floor is looked at when funds are unreserved: a
/// free balance of nothing can be raised to less than the minimum.
pub proof fn lemma_unreserve_keeps_floor<T: Config>(
    cells: Cells,
    from: AccountId,
    amount: T::Balance,
)
    requires
        floor_holds::<T>(cells),
        Module::<T>::after_unreserve(cells, from, amount) is Ok ==> floor_met::<T>(
            account::<T>(cells, from)->Some_0.free.amount() + amount.amount(),
        ),
    ensures
        floor_holds::<T>(committed(Module::<T>::after_unreserve(cells, from, amount), cells).1),
{
    if let Ok(after) = Module::<T>::after_unreserve(cells, from, amount) {
        let balance = account::<T>(cells, from)->Some_0;
        lemma_unreserve_amounts::<T>(balance, amount);
        lemma_write_keeps_floor::<T>(cells, from, balance.spec_unreserve(amount)->Ok_0);
    }
}

/// Whether dispatching `call` for `sender` creates an account under the floor.
pub open spec fn call_mints_under_floor<T: Config>(
    call: Call<T>,
    cells: Cells,
    sender: AccountId,
) -> bool {
    match call {
        Call::Mint { dest, amount } => mints_under_floor::<T>(cells, sender, dest, amount),
        _ => false,
    }
}

/// Between calls of the currency module, every account has a free balance of nothing or
/// of at least the minimum: a call that is dispatched in such a state leaves such a
/// state, whether it succeeds or fails, unless it is a mint that creates an account
/// under the floor.
pub proof fn lemma_call_keeps_floor<T: Config>(call: Call<T>, cells: Cells, sender: AccountId)
    requires
        floor_holds::<T>(cells),
        !call_mints_under_floor::<T>(call, cells, sender),
    ensures
        floor_holds::<T>(call.spec_dispatch(cells, sender).1),
{
    match call {
        Call::Mint { dest, amount } => lemma_mint_keeps_floor::<T>(cells, sender, dest, amount),
        Call::Transfer { dest, amount } => lemma_transfer_keeps_floor::<T>(
            cells,
            sender,
            dest,
            amount,
        ),
        Call::TransferAll { dest } => lemma_transfer_all_keeps_floor::<T>(cells, sender, dest),
    }
}

/// Whether dispatching `call` for `sender` creates an account under the floor.
pub open spec fn runtime_call_mints_under_floor(
    call: RuntimeCall,
    cells: Cells,
    sender: AccountId,
) -> bool {
    match call {
        RuntimeCall::Currency(value) => call_mints_under_floor::<MyRuntime>(value, cells, sender),
        RuntimeCall::Staking(_) => false,
    }
}

/// Between calls of the runtime, every account has a free balance of nothing or of at
/// least the minimum: a call that is dispatched in such a state leaves such a state,
/// whether it succeeds or fails, unless it is a mint that creates an account under the
/// floor.
pub proof fn lemma_runtime_call_keeps_floor(call: RuntimeCall, cells: Cells, sender: AccountId)
    requires
        floor_holds::<MyRuntime>(cells),
        !runtime_call_mints_under_floor(call, cells, sender),
    ensures
        floor_holds::<MyRuntime>(call.spec_dispatch(cells, sender).1),
{
    match call {
        RuntimeCall::Currency(value) => lemma_call_keeps_floor::<MyRuntime>(value, cells, sender),
        RuntimeCall::Staking(staking_module::Call::Bond { amount }) => {
            lemma_reserve_keeps_floor::<MyRuntime>(cells, sender, amount);
        },
    }
}

/// A store that holds nothing holds no account, so the floor holds in it.
pub proof fn lemma_empty_keeps_floor<T: Config>()
    ensures
        floor_holds::<T>(Cells::empty()),
{
}

/// What `who` holds in `cells`: its free and reserved balance together, or nothing if it
/// has no account.
pub open spec fn holdings<T: Config>(cells: Cells, who: AccountId) -> nat {
    match account::<T>(cells, who) {
        Some(balance) => balance.free.amount() + balance.reserved.amount(),
        None => 0,
    }
}

/// What the accounts with an identifier under `bound` hold together.
pub open spec fn holdings_below<T: Config>(cells: Cells, bound: nat) -> nat
    decreases bound,
{
    if bound == 0 {
        0
    } else {
        holdings_below::<T>(cells, (bound - 1) as nat) + holdings::<T>(
            cells,
            AccountId((bound - 1) as u32),
        )
    }
}

/// The number of account identifiers.
pub open spec fn account_ids() -> nat {
    0x1_0000_0000
}

/// What all accounts hold together.
pub open spec fn total_holdings<T: Config>(cells: Cells) -> nat {
    holdings_below::<T>(cells, account_ids())
}

/// The total issuance that `cells` record, which is nothing where none is recorded.
pub open spec fn issuance<T: Config>(cells: Cells) -> nat {
    match value_in::<TotalIssuance<T>>(cells) {
        Some(issued) => issued.amount(),
        None => 0,
    }
}

/// Whether the total issuance equals what all accounts hold together.
pub open spec fn issuance_matches<T: Config>(cells: Cells) -> bool {
    issuance::<T>(cells) == total_holdings::<T>(cells)
}

/// Where two states differ in the holdings of at most one account, the sums of holdings
/// differ by as much as that account's holdings do.
proof fn lemma_holdings_below_differ<T: Config>(
    before: Cells,
    after: Cells,
    who: AccountId,
    bound: nat,
)
    requires
        bound <= account_ids(),
        forall|other: AccountId|
            other != who ==> #[trigger] holdings::<T>(after, other) == holdings::<T>(before, other),
    ensures
        holdings_below::<T>(after, bound) + (if who.0 < bound {
            holdings::<T>(before, who)
        } else {
            0
        }) == holdings_below::<T>(before, bound) + (if who.0 < bound {
            holdings::<T>(after, who)
        } else {
            0
        }),
    decreases bound,
{
    if bound > 0 {
        lemma_holdings_below_differ::<T>(before, after, who, (bound - 1) as nat);
        let last = AccountId((bound - 1) as u32);
        if last != who {
            assert(holdings::<T>(after, last) == holdings::<T>(before, last));
        }
    }
}

/// After the balance of `who` is written, all accounts together hold what they held,
/// less what `who` held, plus what `who` holds now.
pub proof fn lemma_total_after_write<T: Config>(
    cells: Cells,
    who: AccountId,
    balance: AccountBalance<T>,
)
    ensures
        total_holdings::<T>(with_account::<T>(cells, who, balance)) + holdings::<T>(cells, who)
            == total_holdings::<T>(cells) + balance.free.amount() + balance.reserved.amount(),
{
    let after = with_account::<T>(cells, who, balance);
    assert forall|other: AccountId| other != who implies #[trigger] holdings::<T>(after, other)
        == holdings::<T>(cells, other) by {
        lemma_account_after_write::<T>(cells, who, balance, other);
    }
    lemma_account_after_write::<T>(cells, who, balance, who);
    lemma_holdings_below_differ::<T>(cells, after, who, account_ids());
}

/// Writing the total issuance changes nothing of what the accounts hold together.
pub proof fn lemma_total_after_issuance<T: Config>(cells: Cells, issued: Option<T::Balance>)
    ensures
        total_holdings::<T>(value_put::<TotalIssuance<T>>(cells, issued)) == total_holdings::<T>(
            cells,
        ),
{
    let after = value_put::<TotalIssuance<T>>(cells, issued);
    assert forall|other: AccountId| #[trigger]
        holdings::<T>(after, other) == holdings::<T>(cells, other) by {
        lemma_account_after_issuance::<T>(cells, issued, other);
    }
    lemma_holdings_below_differ::<T>(cells, after, AccountId(0), account_ids());
}

/// Whether a mint replaces an issuance that it should have added to: the minter mints
/// to an account that does not exist, while the accounts that exist hold more than
/// nothing.
pub open spec fn mint_replaces_issuance<T: Config>(
    cells: Cells,
    sender: AccountId,
    dest: AccountId,
) -> bool {
    sender == T::Minter::value() && account::<T>(cells, dest) is None && total_holdings::<T>(
        cells,
    ) > 0
}

/// A transfer keeps the total issuance equal to what all accounts hold: what the sender
/// pays is what the destination receives.
pub proof fn lemma_transfer_keeps_issuance<T: Config>(
    cells: Cells,
    sender: AccountId,
    dest: AccountId,
    amount: T::Balance,
)
    requires
        issuance_matches::<T>(cells),
    ensures
        issuance_matches::<T>(
            committed(Module::<T>::after_transfer(cells, sender, dest, amount), cells).1,
        ),
{
    if let Ok(after) = Module::<T>::after_transfer(cells, sender, dest, amount) {
        let sender_balance = account::<T>(cells, sender)->Some_0;
        let sender_after = sender_balance.spec_transfer(amount)->Ok_0;
        lemma_transfer_amounts::<T>(sender_balance, amount);
        let between = with_account::<T>(cells, sender, sender_after);
        lemma_total_after_write::<T>(cells, sender, sender_after);
        lemma_issuance_after_write::<T>(cells, sender, sender_after);
        let dest_after = match account::<T>(between, dest) {
            Some(dest_balance) => {
                lemma_receive_amounts::<T>(dest_balance, amount);
                dest_balance.spec_receive(amount)->Ok_0
            },
            None => {
                T::Balance::lemma_of_amount(0);
                opening_balance::<T>(amount)
            },
        };
        assert(after == with_account::<T>(between, dest, dest_after));
        lemma_total_after_write::<T>(between, dest, dest_after);
        lemma_issuance_after_write::<T>(between, dest, dest_after);
    }
}

/// A transfer of everything keeps the total issuance equal to what all accounts hold.
pub proof fn lemma_transfer_all_keeps_issuance<T: Config>(
    cells: Cells,
    sender: AccountId,
    dest: AccountId,
)
    requires
        issuance_matches::<T>(cells),
    ensures
        issuance_matches::<T>(
            committed(Module::<T>::after_transfer_all(cells, sender, dest), cells).1,
        ),
{
    if let Ok(after) = Module::<T>::after_transfer_all(cells, sender, dest) {
        let sender_balance = account::<T>(cells, sender)->Some_0;
        let sender_after = AccountBalance::<T> {
            free: T::Balance::of_amount(0),
            reserved: sender_balance.reserved,
        };
        T::Balance::lemma_of_amount(0);
        let between = with_account::<T>(cells, sender, sender_after);
        lemma_total_after_write::<T>(cells, sender, sender_after);
        lemma_issuance_after_write::<T>(cells, sender, sender_after);
        let dest_balance = account::<T>(between, dest)->Some_0;
        lemma_receive_amounts::<T>(dest_balance, sender_balance.free);
        let dest_after = dest_balance.spec_receive(sender_balance.free)->Ok_0;
        assert(after == with_account::<T>(between, dest, dest_after));
        lemma_total_after_write::<T>(between, dest, dest_after);
        lemma_issuance_after_write::<T>(between, dest, dest_after);
    }
}

/// A mint keeps the total issuance equal to what all accounts hold, unless it replaces
/// an issuance that it should have added to.
pub proof fn lemma_mint_keeps_issuance<T: Config>(
    cells: Cells,
    sender: AccountId,
    dest: AccountId,
    amount: T::Balance,
)
    requires
        issuance_matches::<T>(cells),
        !mint_replaces_issuance::<T>(cells, sender, dest),
    ensures
        issuance_matches::<T>(
            committed(Module::<T>::after_mint(cells, sender, dest, amount), cells).1,
        ),
{
    if sender == T::Minter::value() && account::<T>(cells, dest) is None {
        let issued = value_put::<TotalIssuance<T>>(cells, Some(amount));
        let opened = opening_balance::<T>(amount);
        T::Balance::lemma_of_amount(0);
        lemma_total_after_issuance::<T>(cells, Some(amount));
        lemma_account_after_issuance::<T>(cells, Some(amount), dest);
        lemma_value_set_then_get::<TotalIssuance<T>>(cells, amount);
        lemma_total_after_write::<T>(issued, dest, opened);
        lemma_issuance_after_write::<T>(issued, dest, opened);
    }
}

/// A reservation keeps the total issuance equal to what all accounts hold.
pub proof fn lemma_reserve_keeps_issuance<T: Config>(
    cells: Cells,
    from: AccountId,
    amount: T::Balance,
)
    requires
        issuance_matches::<T>(cells),
    ensures
        issuance_matches::<T>(committed(Module::<T>::after_reserve(cells, from, amount), cells).1),
{
    if let Ok(after) = Module::<T>::after_reserve(cells, from, amount) {
        let balance = account::<T>(cells, from)->Some_0;
        let reserved = balance.spec_reserve(amount)->Ok_0;
        lemma_reserve_amounts::<T>(balance, amount);
        lemma_total_after_write::<T>(cells, from, reserved);
        lemma_issuance_after_write::<T>(cells, from, reserved);
    }
}

/// An unreservation keeps the total issuance equal to what all accounts hold.
pub proof fn lemma_unreserve_keeps_issuance<T: Config>(
    cells: Cells,
    from: AccountId,
    amount: T::Balance,
)
    requires
        issuance_matches::<T>(cells),
    ensures
        issuance_matches::<T>(
            committed(Module::<T>::after_unreserve(cells, from, amount), cells).1,
        ),
{
    if let Ok(after) = Module::<T>::after_unreserve(cells, from, amount) {
        let balance = account::<T>(cells, from)->Some_0;
        let unreserved = balance.spec_unreserve(amount)->Ok_0;
        lemma_unreserve_amounts::<T>(balance, amount);
        lemma_total_after_write::<T>(cells, from, unreserved);
        lemma_issuance_after_write::<T>(cells, from, unreserved);
    }
}

/// Whether dispatching `call` for `sender` breaks the tie between the total issuance and
/// what all accounts hold: only a mint that replaces an issuance that it should have
/// added to does.
pub open spec fn call_breaks_issuance<T: Config>(
    call: Call<T>,
    cells: Cells,
    sender: AccountId,
) -> bool {
    match call {
        Call::Mint { dest, amount } => mint_replaces_issuance::<T>(cells, sender, dest),
        _ => false,
    }
}

/// Between calls of the currency module, the total issuance equals what all accounts
/// hold together: a call that is dispatched in such a state leaves such a state,
/// whether it succeeds or fails, unless it is one of the calls that break the tie.
pub proof fn lemma_call_keeps_issuance<T: Config>(call: Call<T>, cells: Cells, sender: AccountId)
    requires
        issuance_matches::<T>(cells),
        !call_breaks_issuance::<T>(call, cells, sender),
    ensures
        issuance_matches::<T>(call.spec_dispatch(cells, sender).1),
{
    match call {
        Call::Mint { dest, amount } => lemma_mint_keeps_issuance::<T>(cells, sender, dest, amount),
        Call::Transfer { dest, amount } => lemma_transfer_keeps_issuance::<T>(
            cells,
            sender,
            dest,
            amount,
        ),
        Call::TransferAll { dest } => lemma_transfer_all_keeps_issuance::<T>(cells, sender, dest),
    }
}

/// Whether dispatching `call` for `sender` breaks the tie between the total issuance and
/// what all accounts hold.
pub open spec fn runtime_call_breaks_issuance(
    call: RuntimeCall,
    cells: Cells,
    sender: AccountId,
) -> bool {
    match call {
        RuntimeCall::Currency(value) => call_breaks_issuance::<MyRuntime>(value, cells, sender),
        RuntimeCall::Staking(_) => false,
    }
}

/// Between calls of the runtime, the total issuance equals what all accounts hold
/// together: a call that is dispatched in such a state leaves such a state, whether it
/// succeeds or fails, unless it is one of the calls that break the tie.
pub proof fn lemma_runtime_call_keeps_issuance(call: RuntimeCall, cells: Cells, sender: AccountId)
    requires
        issuance_matches::<MyRuntime>(cells),
        !runtime_call_breaks_issuance(call, cells, sender),
    ensures
        issuance_matches::<MyRuntime>(call.spec_dispatch(cells, sender).1),
{
    match call {
        RuntimeCall::Currency(value) => lemma_call_keeps_issuance::<MyRuntime>(
            value,
            cells,
            sender,
        ),
        RuntimeCall::Staking(staking_module::Call::Bond { amount }) => {
            lemma_reserve_keeps_issuance::<MyRuntime>(cells, sender, amount);
        },
    }
}

/// In a store that holds nothing, nothing is issued and nothing is held.
pub proof fn lemma_empty_issuance_matches<T: Config>()
    ensures
        issuance_matches::<T>(Cells::empty()),
{
    lemma_holdings_below_nothing::<T>(account_ids());
}

/// In a store that holds nothing, the accounts under any bound hold nothing.
proof fn lemma_holdings_below_nothing<T: Config>(bound: nat)
    ensures
        holdings_below::<T>(Cells::empty(), bound) == 0,
    decreases bound,
{
    if bound > 0 {
        lemma_holdings_below_nothing::<T>((bound - 1) as nat);
    }
}

/// One completed operation on the ledger: a call dispatched for a sender, or one of the
/// two operations that other modules reach without a call.
pub enum Operation<T: Config> {
    /// `call` is dispatched for `sender`.
    Dispatch { sender: AccountId, call: Call<T> },
    /// `amount` of the free balance of `from` is reserved.
    Reserve { from: AccountId, amount: T::Balance },
    /// `amount` of the reserved balance of `from` is made free again.
    Unreserve { from: AccountId, amount: T::Balance },
}

impl<T: Config> Operation<T> {
    /// The state that the operation leaves when it starts in `cells`: a new state where
    /// it succeeds, `cells` where it fails.
    pub open spec fn apply(self, cells: Cells) -> Cells {
        match self {
            Operation::Dispatch { sender, call } => call.spec_dispatch(cells, sender).1,
            Operation::Reserve { from, amount } => committed(
                Module::<T>::after_reserve(cells, from, amount),
                cells,
            ).1,
            Operation::Unreserve { from, amount } => committed(
                Module::<T>::after_unreserve(cells, from, amount),
                cells,
            ).1,
        }
    }

    /// Whether the operation, started in `cells`, leaves an account under the floor: a
    /// mint that creates such an account, or an unreservation that raises a free balance
    /// to less than the minimum.
    pub open spec fn breaks_floor(self, cells: Cells) -> bool {
        match self {
            Operation::Dispatch { sender, call } => call_mints_under_floor::<T>(
                call,
                cells,
                sender,
            ),
            Operation::Reserve { from, amount } => false,
            Operation::Unreserve { from, amount } => Module::<T>::after_unreserve(
                cells,
                from,
                amount,
            ) is Ok && !floor_met::<T>(
                account::<T>(cells, from)->Some_0.free.amount() + amount.amount(),
            ),
        }
    }

    /// Whether the operation, started in `cells`, breaks the tie between the total
    /// issuance and what all accounts hold.
    pub open spec fn breaks_issuance(self, cells: Cells) -> bool {
        match self {
            Operation::Dispatch { sender, call } => call_breaks_issuance::<T>(call, cells, sender),
            Operation::Reserve { from, amount } => false,
            Operation::Unreserve { from, amount } => false,
        }
    }
}

/// The state after `operations` are completed one after the other, starting in `cells`.
pub open spec fn after_all<T: Config>(cells: Cells, operations: Seq<Operation<T>>) -> Cells
    decreases operations.len(),
{
    if operations.len() == 0 {
        cells
    } else {
        operations.last().apply(after_all::<T>(cells, operations.drop_last()))
    }
}

/// An operation that does not break the floor keeps it.
pub proof fn lemma_operation_keeps_floor<T: Config>(operation: Operation<T>, cells: Cells)
    requires
        floor_holds::<T>(cells),
        !operation.breaks_floor(cells),
    ensures
        floor_holds::<T>(operation.apply(cells)),
{
    match operation {
        Operation::Dispatch { sender, call } => lemma_call_keeps_floor::<T>(call, cells, sender),
        Operation::Reserve { from, amount } => lemma_reserve_keeps_floor::<T>(cells, from, amount),
        Operation::Unreserve { from, amount } => lemma_unreserve_keeps_floor::<T>(
            cells,
            from,
            amount,
        ),
    }
}

/// An operation that does not break the tie between the total issuance and what all
/// accounts hold keeps it.
pub proof fn lemma_operation_keeps_issuance<T: Config>(operation: Operation<T>, cells: Cells)
    requires
        issuance_matches::<T>(cells),
        !operation.breaks_issuance(cells),
    ensures
        issuance_matches::<T>(operation.apply(cells)),
{
    match operation {
        Operation::Dispatch { sender, call } => lemma_call_keeps_issuance::<T>(
            call,
            cells,
            sender,
        ),
        Operation::Reserve { from, amount } => lemma_reserve_keeps_issuance::<T>(
            cells,
            from,
            amount,
        ),
        Operation::Unreserve { from, amount } => lemma_unreserve_keeps_issuance::<T>(
            cells,
            from,
            amount,
        ),
    }
}

/// At every point between completed operations, every account has a free balance of
/// nothing or of at least the minimum: this holds after any number of operations that
/// start where it holds, as long as none of them breaks the floor.
pub proof fn lemma_floor_holds_throughout<T: Config>(cells: Cells, operations: Seq<Operation<T>>)
    requires
        floor_holds::<T>(cells),
        forall|i: int|
            0 <= i < operations.len() ==> !(#[trigger] operations[i]).breaks_floor(
                after_all::<T>(cells, operations.take(i)),
            ),
    ensures
        forall|i: int|
            0 <= i <= operations.len() ==> floor_holds::<T>(
                #[trigger] after_all::<T>(cells, operations.take(i)),
            ),
    decreases operations.len(),
{
    if operations.len() > 0 {
        let earlier = operations.drop_last();
        assert forall|i: int| 0 <= i < earlier.len() implies !(#[trigger] earlier[i]).breaks_floor(
            after_all::<T>(cells, earlier.take(i)),
        ) by {
            assert(earlier.take(i) =~= operations.take(i));
            assert(earlier[i] == operations[i]);
        }
        lemma_floor_holds_throughout::<T>(cells, earlier);
        let last = operations.len() - 1;
        assert(earlier.take(last) =~= earlier);
        assert(operations.take(last) =~= earlier);
        lemma_operation_keeps_floor::<T>(operations[last], after_all::<T>(cells, earlier));
        assert forall|i: int| 0 <= i <= operations.len() implies floor_holds::<T>(
            #[trigger] after_all::<T>(cells, operations.take(i)),
        ) by {
            if i < operations.len() {
                assert(operations.take(i) =~= earlier.take(i));
            } else {
                assert(operations.take(i) =~= operations);
            }
        }
    } else {
        assert forall|i: int| 0 <= i <= operations.len() implies floor_holds::<T>(
            #[trigger] after_all::<T>(cells, operations.take(i)),
        ) by {
            assert(operations.take(i) =~= operations);
        }
    }
}

/// After every run of completed operations the total issuance equals what all accounts
/// hold together: this holds after any number of operations that start where it holds,
/// as long as none of them breaks the tie.
pub proof fn lemma_issuance_matches_throughout<T: Config>(
    cells: Cells,
    operations: Seq<Operation<T>>,
)
    requires
        issuance_matches::<T>(cells),
        forall|i: int|
            0 <= i < operations.len() ==> !(#[trigger] operations[i]).breaks_issuance(
                after_all::<T>(cells, operations.take(i)),
            ),
    ensures
        forall|i: int|
            0 <= i <= operations.len() ==> issuance_matches::<T>(
                #[trigger] after_all::<T>(cells, operations.take(i)),
            ),
    decreases operations.len(),
{
    if operations.len() > 0 {
        let earlier = operations.drop_last();
        assert forall|i: int| 0 <= i < earlier.len() implies !(#[trigger] earlier[i]).breaks_issuance(
            after_all::<T>(cells, earlier.take(i)),
        ) by {
            assert(earlier.take(i) =~= operations.take(i));
            assert(earlier[i] == operations[i]);
        }
        lemma_issuance_matches_throughout::<T>(cells, earlier);
        let last = operations.len() - 1;
        assert(earlier.take(last) =~= earlier);
        assert(operations.take(last) =~= earlier);
        lemma_operation_keeps_issuance::<T>(operations[last], after_all::<T>(cells, earlier));
        assert forall|i: int| 0 <= i <= operations.len() implies issuance_matches::<T>(
            #[trigger] after_all::<T>(cells, operations.take(i)),
        ) by {
            if i < operations.len() {
                assert(operations.take(i) =~= earlier.take(i));
            } else {
                assert(operations.take(i) =~= operations);
            }
        }
    } else {
        assert forall|i: int| 0 <= i <= operations.len() implies issuance_matches::<T>(
            #[trigger] after_all::<T>(cells, operations.take(i)),
        ) by {
            assert(operations.take(i) =~= operations);
        }
    }
}

} // verus!
