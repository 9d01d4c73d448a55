//! The ledger: accounts by name, and transfers between them.

use vstd::hash_map::StringHashMap;
use vstd::prelude::*;
use vstd::string::{StringExecFns, StringSliceAdditionalSpecFns};
use vstd::utf8::{decode_utf8, encode_utf8_decode_utf8};

verus! {

/// Why a transfer was refused.
#[derive(Debug, Clone, Copy, PartialEq, Eq, Structural)]
pub enum TransactionError {
    /// The source account holds less than the amount asked for.
    InsufficientFunds,
    /// The source or the destination is not an account of the ledger.
    AccountNotFound,
}

impl TransactionError {
    /// The words in which the error is reported.
    pub open spec fn text(self) -> Seq<char> {
        match self {
            TransactionError::InsufficientFunds => "Insufficient funds"@,
            TransactionError::AccountNotFound => "Account not found"@,
        }
    }

    /// The words in which the error is reported.
    pub fn message(&self) -> (message: String)
        ensures
            message@ == self.text(),
    {
        match self {
            TransactionError::InsufficientFunds => String::from_str("Insufficient funds"),
            TransactionError::AccountNotFound => String::from_str("Account not found"),
        }
    }
}

/// The balance that `accounts` holds under `name`, if there is such an account.
pub open spec fn balance_in(accounts: Map<Seq<char>, int>, name: Seq<char>) -> Option<int> {
    if accounts.contains_key(name) {
        Some(accounts[name])
    } else {
        None
    }
}

/// The ledger `accounts` after an account `name` was created with `balance`:
/// an account of that name is replaced, every other account is kept.
pub open spec fn with_account(accounts: Map<Seq<char>, int>, name: Seq<char>, balance: int) -> Map<
    Seq<char>,
    int,
> {
    accounts.insert(name, balance)
}

/// How a transfer of `amount` from `from` to `to` ends on `accounts`.
///
/// A missing account is reported before the funds are looked at. The funds
/// suffice when the source holds at least `amount`; the sign of `amount` is
/// not looked at, so a negative amount is accepted and moves funds from `to`
/// to `from`.
pub open spec fn transfer_outcome(
    accounts: Map<Seq<char>, int>,
    from: Seq<char>,
    to: Seq<char>,
    amount: int,
) -> Result<(), TransactionError> {
    if !accounts.contains_key(from) || !accounts.contains_key(to) {
        Err(TransactionError::AccountNotFound)
    } else if accounts[from] < amount {
        Err(TransactionError::InsufficientFunds)
    } else {
        Ok(())
    }
}

/// The ledger that a transfer leaves behind.
///
/// A refused transfer changes nothing, and neither does an accepted transfer
/// from an account to itself. Any other accepted transfer takes `amount` from
/// the source and gives it to the destination.
pub open spec fn after_transfer(
    accounts: Map<Seq<char>, int>,
    from: Seq<char>,
    to: Seq<char>,
    amount: int,
) -> Map<Seq<char>, int> {
    if transfer_outcome(accounts, from, to, amount) is Ok && from != to {
        accounts.insert(from, accounts[from] - amount).insert(to, accounts[to] + amount)
    } else {
        accounts
    }
}

/// Whether both balances that a transfer would write can be held in an `i64`.
/// Holds of every transfer that writes nothing.
pub open spec fn transfer_fits(
    accounts: Map<Seq<char>, int>,
    from: Seq<char>,
    to: Seq<char>,
    amount: int,
) -> bool {
    transfer_outcome(accounts, from, to, amount) is Ok && from != to ==> {
        &&& i64::MIN <= accounts[from] - amount <= i64::MAX
        &&& i64::MIN <= accounts[to] + amount <= i64::MAX
    }
}

/// Whether two names are the same, compared byte by byte.
fn same_name(a: &str, b: &str) -> (same: bool)
    ensures
        same == (a@ == b@),
{
    let a_bytes = a.as_bytes();
    let b_bytes = b.as_bytes();
    proof {
        encode_utf8_decode_utf8(a@);
        encode_utf8_decode_utf8(b@);
    }
    if a_bytes.len() != b_bytes.len() {
        return false;
    }
    let mut i: usize = 0;
    while i < a_bytes.len()
        invariant
            i <= a_bytes.len(),
            a_bytes.len() == b_bytes.len(),
            a_bytes@ == a.spec_bytes(),
            b_bytes@ == b.spec_bytes(),
            decode_utf8(a.spec_bytes()) == a@,
            decode_utf8(b.spec_bytes()) == b@,
            forall|j: int| 0 <= j < i ==> a_bytes@[j] == b_bytes@[j],
        decreases a_bytes.len() - i,
    {
        if a_bytes[i] != b_bytes[i] {
            return false;
        }
        i += 1;
    }
    assert(a_bytes@ =~= b_bytes@);
    true
}

/// A ledger of named accounts.
pub struct Bank {
    accounts: StringHashMap<i64>,
}

impl View for Bank {
    type V = Map<Seq<char>, int>;

    /// The ledger as a map from account name to balance.
    closed spec fn view(&self) -> Map<Seq<char>, int> {
        self.accounts@.map_values(|balance: i64| balance as int)
    }
}

impl Bank {
    /// A ledger without accounts.
    pub fn new() -> (bank: Bank)
        ensures
            bank@ == Map::<Seq<char>, int>::empty(),
    {
        let bank = Bank { accounts: StringHashMap::new() };
        assert(bank@ =~= Map::<Seq<char>, int>::empty());
        bank
    }

    /// Every balance of a ledger can be held in an `i64`.
    pub proof fn lemma_balances_fit(&self)
        ensures
            forall|name: Seq<char>| #[trigger]
                self@.contains_key(name) ==> i64::MIN <= self@[name] <= i64::MAX,
    {
    }

    /// Creates the account `name` with `initial_balance`, which may be zero
    /// or negative. An account that already has this name gets the new
    /// balance.
    pub fn create_account(&mut self, name: String, initial_balance: i64)
        ensures
            final(self)@ == with_account(old(self)@, name@, initial_balance as int),
    {
        self.accounts.insert(name, initial_balance);
        assert(self@ =~= with_account(old(self)@, name@, initial_balance as int));
    }

    /// The balance of `account`, or `None` where the ledger has no such
    /// account.
    pub fn balance(&self, account: &str) -> (found: Option<i64>)
        ensures
            match found {
                Some(balance) => balance_in(self@, account@) == Some(balance as int),
                None => balance_in(self@, account@) is None,
            },
    {
        match self.accounts.get(account) {
            Some(balance) => Some(*balance),
            None => None,
        }
    }

    /// Whether the balances that `transaction` would write on these
    /// arguments can be held.
    pub fn transaction_fits(&self, from: &str, to: &str, amount: i64) -> (fits: bool)
        ensures
            fits == transfer_fits(self@, from@, to@, amount as int),
    {
        match (self.accounts.get(from), self.accounts.get(to)) {
            (Some(from_balance), Some(to_balance)) => {
                if *from_balance < amount || same_name(from, to) {
                    true
                } else {
                    from_balance.checked_sub(amount).is_some() && to_balance.checked_add(
                        amount,
                    ).is_some()
                }
            },
            _ => true,
        }
    }

    /// Moves `amount` from the account `from` to the account `to`.
    ///
    /// Fails with `AccountNotFound` where either account is missing, and with
    /// `InsufficientFunds` where both exist and the source holds less than
    /// `amount`. A failed transfer leaves the ledger as it was. A transfer
    /// from an account to itself is checked like any other and changes no
    /// balance.
    ///
    /// The two balances that a transfer writes must be such that an `i64`
    /// holds them; `transaction_fits` tells whether they are.
    pub fn transaction(&mut self, from: &str, to: &str, amount: i64) -> (outcome: Result<
        (),
        TransactionError,
    >)
        requires
            transfer_fits(old(self)@, from@, to@, amount as int),
        ensures
            outcome == transfer_outcome(old(self)@, from@, to@, amount as int),
            final(self)@ == after_transfer(old(self)@, from@, to@, amount as int),
    {
        let from_balance = self.accounts.get(from);
        let to_balance = self.accounts.get(to);
        match (from_balance, to_balance) {
            (Some(from_balance), Some(to_balance)) => {
                let from_balance: i64 = *from_balance;
                let to_balance: i64 = *to_balance;
                if from_balance >= amount {
                    if !same_name(from, to) {
                        self.accounts.insert(from.to_owned(), from_balance - amount);
                        self.accounts.insert(to.to_owned(), to_balance + amount);
                        assert(self@ =~= after_transfer(
                            old(self)@,
                            from@,
                            to@,
                            amount as int,
                        ));
                    }
                    Ok(())
                } else {
                    Err(TransactionError::InsufficientFunds)
                }
            },
            _ => Err(TransactionError::AccountNotFound),
        }
    }
}

} // verus!
