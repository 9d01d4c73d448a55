//! What holds of the ledger's operations, whatever the accounts and amounts.

use crate::bank::{after_transfer, balance_in, transfer_outcome, with_account, TransactionError};
use vstd::prelude::*;

verus! {

/// An account that was just created has the balance it was created with,
/// whether or not the name was in use before.
pub proof fn lemma_created_account_has_its_balance(
    accounts: Map<Seq<char>, int>,
    name: Seq<char>,
    balance: int,
)
    ensures
        balance_in(with_account(accounts, name, balance), name) == Some(balance),
{
}

/// Creating an account leaves every account of another name as it was.
pub proof fn lemma_create_keeps_other_accounts(
    accounts: Map<Seq<char>, int>,
    name: Seq<char>,
    balance: int,
    other: Seq<char>,
)
    requires
        other != name,
    ensures
        balance_in(with_account(accounts, name, balance), other) == balance_in(accounts, other),
{
}

/// A transfer between two different accounts, of an amount that the source
/// holds, succeeds: the source has that much less, the destination that much
/// more, and the two balances together are what they were.
pub proof fn lemma_transfer_moves_amount(
    accounts: Map<Seq<char>, int>,
    from: Seq<char>,
    to: Seq<char>,
    amount: int,
)
    requires
        accounts.contains_key(from),
        accounts.contains_key(to),
        from != to,
        amount <= accounts[from],
    ensures
        transfer_outcome(accounts, from, to, amount) == Ok::<(), TransactionError>(()),
        balance_in(after_transfer(accounts, from, to, amount), from) == Some(
            accounts[from] - amount,
        ),
        balance_in(after_transfer(accounts, from, to, amount), to) == Some(accounts[to] + amount),
        after_transfer(accounts, from, to, amount)[from] + after_transfer(
            accounts,
            from,
            to,
            amount,
        )[to] == accounts[from] + accounts[to],
{
}

/// A transfer of more than the source holds fails with `InsufficientFunds`
/// and changes no balance.
pub proof fn lemma_overdraw_is_refused(
    accounts: Map<Seq<char>, int>,
    from: Seq<char>,
    to: Seq<char>,
    amount: int,
)
    requires
        accounts.contains_key(from),
        accounts.contains_key(to),
        amount > accounts[from],
    ensures
        transfer_outcome(accounts, from, to, amount) == Err::<(), TransactionError>(
            TransactionError::InsufficientFunds,
        ),
        after_transfer(accounts, from, to, amount) == accounts,
{
}

/// A transfer from or to an account that does not exist fails with
/// `AccountNotFound` and changes no balance.
pub proof fn lemma_missing_account_is_refused(
    accounts: Map<Seq<char>, int>,
    from: Seq<char>,
    to: Seq<char>,
    amount: int,
)
    requires
        !accounts.contains_key(from) || !accounts.contains_key(to),
    ensures
        transfer_outcome(accounts, from, to, amount) == Err::<(), TransactionError>(
            TransactionError::AccountNotFound,
        ),
        after_transfer(accounts, from, to, amount) == accounts,
{
}

/// The balance of an account that does not exist is `None`.
pub proof fn lemma_missing_account_has_no_balance(accounts: Map<Seq<char>, int>, name: Seq<char>)
    requires
        !accounts.contains_key(name),
    ensures
        balance_in(accounts, name) is None,
{
}

/// A transfer is made whole or not at all: one that fails changes nothing.
pub proof fn lemma_refused_transfer_changes_nothing(
    accounts: Map<Seq<char>, int>,
    from: Seq<char>,
    to: Seq<char>,
    amount: int,
)
    requires
        transfer_outcome(accounts, from, to, amount) is Err,
    ensures
        after_transfer(accounts, from, to, amount) == accounts,
{
}

/// A transfer from an account to itself changes nothing, whether it succeeds
/// or fails.
pub proof fn lemma_self_transfer_changes_nothing(
    accounts: Map<Seq<char>, int>,
    name: Seq<char>,
    amount: int,
)
    ensures
        after_transfer(accounts, name, name, amount) == accounts,
{
}

/// A transfer of nothing between two accounts that exist, from a source
/// that is not in debt, succeeds and changes nothing.
pub proof fn lemma_transfer_of_nothing(
    accounts: Map<Seq<char>, int>,
    from: Seq<char>,
    to: Seq<char>,
)
    requires
        accounts.contains_key(from),
        accounts.contains_key(to),
        accounts[from] >= 0,
    ensures
        transfer_outcome(accounts, from, to, 0) == Ok::<(), TransactionError>(()),
        after_transfer(accounts, from, to, 0) == accounts,
{
    assert(after_transfer(accounts, from, to, 0) =~= accounts);
}

/// A transfer creates and removes no account, and leaves every account but
/// its source and its destination as it was.
pub proof fn lemma_transfer_keeps_other_accounts(
    accounts: Map<Seq<char>, int>,
    from: Seq<char>,
    to: Seq<char>,
    amount: int,
    other: Seq<char>,
)
    ensures
        after_transfer(accounts, from, to, amount).dom() == accounts.dom(),
        other != from && other != to ==> balance_in(
            after_transfer(accounts, from, to, amount),
            other,
        ) == balance_in(accounts, other),
{
    assert(after_transfer(accounts, from, to, amount).dom() =~= accounts.dom());
}

/// A transfer of a negative amount that succeeds moves that much the other
/// way: what the source gains, the destination loses.
pub proof fn lemma_negative_amount_moves_backwards(
    accounts: Map<Seq<char>, int>,
    from: Seq<char>,
    to: Seq<char>,
    amount: int,
)
    requires
        accounts.contains_key(from),
        accounts.contains_key(to),
        from != to,
        amount < 0,
        amount <= accounts[from],
    ensures
        after_transfer(accounts, from, to, amount)[from] == accounts[from] + (-amount),
        after_transfer(accounts, from, to, amount)[to] == accounts[to] - (-amount),
{
}

} // verus!
