//! The line-oriented commands: what is done with the lines that a user
//! enters, and what is said in reply.

use crate::amount::{amount_of, amount_text, digits_below, format_amount, parse_amount, parse_digits};
use crate::bank::{
    after_transfer, balance_in, transfer_fits, transfer_outcome, with_account, Bank,
    TransactionError,
};
use vstd::prelude::*;
use vstd::string::{is_ascii_spec_bytes, StringExecFns, StringSliceAdditionalSpecFns};

verus! {

/// What a line of the menu asks for.
#[derive(Debug, Clone, Copy, PartialEq, Eq, Structural)]
pub enum Selection {
    /// Entry 1: create an account.
    CreateAccount,
    /// Entry 2: transfer between two accounts.
    PerformTransaction,
    /// Entry 3: query a balance.
    CheckBalance,
    /// Entry 4: leave.
    Exit,
    /// A number that is no entry of the menu; it is answered with
    /// `Response::InvalidChoice`.
    Invalid,
    /// No number at all, or one beyond `u32::MAX`; the menu is shown again
    /// without a word.
    Unreadable,
}

/// What is said in reply to a command.
#[derive(Debug, PartialEq, Eq)]
pub enum Response {
    /// The account was created.
    AccountCreated,
    /// The balance entered for a new account is no amount.
    InvalidBalance,
    /// The transfer was made.
    TransactionSuccessful,
    /// The ledger refused the transfer.
    TransactionFailed(TransactionError),
    /// The amount entered for a transfer is no amount, or the transfer would
    /// write a balance that cannot be held.
    InvalidAmount,
    /// The balance of the account that was asked for.
    Balance { name: String, balance: i64 },
    /// The account whose balance was asked for does not exist.
    AccountNotFound,
    /// The number entered at the menu is none of its entries.
    InvalidChoice,
}

impl Response {
    /// The line that is shown for this reply.
    pub open spec fn text(self) -> Seq<char> {
        match self {
            Response::AccountCreated => "Account created successfully!"@,
            Response::InvalidBalance => "Invalid balance. Please try again."@,
            Response::TransactionSuccessful => "Transaction successful!"@,
            Response::TransactionFailed(error) => error.text(),
            Response::InvalidAmount => "Invalid amount. Please try again."@,
            Response::Balance { name, balance } => "Balance of "@ + name@ + ": "@ + amount_text(
                balance as int,
            ),
            Response::AccountNotFound => "Account not found"@,
            Response::InvalidChoice => "Invalid choice. Please try again."@,
        }
    }

    /// The line that is shown for this reply.
    pub fn message(&self) -> (message: String)
        ensures
            message@ == self.text(),
    {
        match self {
            Response::AccountCreated => String::from_str("Account created successfully!"),
            Response::InvalidBalance => String::from_str("Invalid balance. Please try again."),
            Response::TransactionSuccessful => String::from_str("Transaction successful!"),
            Response::TransactionFailed(error) => error.message(),
            Response::InvalidAmount => String::from_str("Invalid amount. Please try again."),
            Response::Balance { name, balance } => {
                let mut message = String::from_str("Balance of ");
                message.append(name.as_str());
                message.append(": ");
                message.append(format_amount(*balance).as_str());
                message
            },
            Response::AccountNotFound => String::from_str("Account not found"),
            Response::InvalidChoice => String::from_str("Invalid choice. Please try again."),
        }
    }
}

/// Whether `str::trim` takes `c` for white space. std goes by the Unicode
/// property White_Space, which blanks, tabs and line ends have.
pub uninterp spec fn white_space(c: char) -> bool;

/// `s` without the white space at its start.
pub open spec fn trimmed_start(s: Seq<char>) -> Seq<char>
    decreases s.len(),
{
    if s.len() > 0 && white_space(s.first()) {
        trimmed_start(s.drop_first())
    } else {
        s
    }
}

/// `s` without the white space at its end.
pub open spec fn trimmed_end(s: Seq<char>) -> Seq<char>
    decreases s.len(),
{
    if s.len() > 0 && white_space(s.last()) {
        trimmed_end(s.drop_last())
    } else {
        s
    }
}

/// What is left of a line once the white space at its two ends is taken
/// away. White space inside stays.
pub open spec fn trimmed(line: Seq<char>) -> Seq<char> {
    trimmed_end(trimmed_start(line))
}

/// What trimming leaves is a part of the line that neither starts nor ends
/// with white space.
pub proof fn lemma_trimmed_ends(line: Seq<char>)
    ensures
        trimmed(line).len() <= line.len(),
        trimmed(line).len() > 0 ==> !white_space(trimmed(line).first()) && !white_space(
            trimmed(line).last(),
        ),
{
    lemma_trimmed_start(line);
    lemma_trimmed_end(trimmed_start(line));
}

/// What is left after the leading white space does not start with any.
proof fn lemma_trimmed_start(s: Seq<char>)
    ensures
        trimmed_start(s).len() <= s.len(),
        trimmed_start(s).len() > 0 ==> !white_space(trimmed_start(s).first()),
    decreases s.len(),
{
    if s.len() > 0 && white_space(s.first()) {
        lemma_trimmed_start(s.drop_first());
    }
}

/// What is left after the trailing white space is a prefix that does not
/// end with any.
proof fn lemma_trimmed_end(s: Seq<char>)
    ensures
        trimmed_end(s).len() <= s.len(),
        trimmed_end(s) == s.take(trimmed_end(s).len() as int),
        trimmed_end(s).len() > 0 ==> !white_space(trimmed_end(s).last()),
    decreases s.len(),
{
    if s.len() > 0 && white_space(s.last()) {
        lemma_trimmed_end(s.drop_last());
        let kept = trimmed_end(s).len() as int;
        assert(s.drop_last().take(kept) =~= s.take(kept));
    } else {
        assert(s.take(s.len() as int) =~= s);
    }
}

/// `str::trim` of std, which returns the part of `line` between its leading
/// and its trailing white space. The contract says so over `white_space`;
/// which characters are white space it leaves to std. Its second clause,
/// that the result neither starts nor ends with white space, adds nothing
/// to the first: `lemma_trimmed_ends` proves it of `trimmed`.
#[verifier::external_body]
fn trim(line: &str) -> (field: &str)
    ensures
        field@ == trimmed(line@),
        field@.len() > 0 ==> !white_space(field@.first()) && !white_space(field@.last()),
{
    line.trim()
}

/// The number that `text` gives at the menu: a run of digits, which a single
/// `+` may precede, that denotes no more than `u32::MAX`.
pub open spec fn entry_of(text: Seq<char>) -> Option<int> {
    if text.len() > 0 && text[0] == '+' {
        digits_below(text.skip(1), u32::MAX as int)
    } else {
        digits_below(text, u32::MAX as int)
    }
}

/// What `text` asks for at the menu.
pub open spec fn selection_of(text: Seq<char>) -> Selection {
    match entry_of(text) {
        None => Selection::Unreadable,
        Some(entry) => if entry == 1 {
            Selection::CreateAccount
        } else if entry == 2 {
            Selection::PerformTransaction
        } else if entry == 3 {
            Selection::CheckBalance
        } else if entry == 4 {
            Selection::Exit
        } else {
            Selection::Invalid
        },
    }
}

/// Reads a choice at the menu from text without white space around it.
pub fn select(text: &str) -> (selection: Selection)
    ensures
        selection == selection_of(text@),
{
    if !text.is_ascii() {
        proof {
            lemma_entry_is_ascii(text@);
        }
        return Selection::Unreadable;
    }
    let bytes = text.as_bytes();
    proof {
        is_ascii_spec_bytes(text);
    }
    let start: usize = if bytes.len() > 0 && bytes[0] == 43 {
        1
    } else {
        0
    };
    assert(text@.skip(0) =~= text@);
    assert(text@.len() > 0 ==> bytes@[0] == text@[0] as u8 && '\0' <= text@[0] <= '\u{7f}');
    match parse_digits(text, start, 0xffff_ffff) {
        None => Selection::Unreadable,
        Some(entry) => if entry == 1 {
            Selection::CreateAccount
        } else if entry == 2 {
            Selection::PerformTransaction
        } else if entry == 3 {
            Selection::CheckBalance
        } else if entry == 4 {
            Selection::Exit
        } else {
            Selection::Invalid
        },
    }
}

/// Text that gives a number at the menu holds a sign and digits only.
proof fn lemma_entry_is_ascii(text: Seq<char>)
    ensures
        entry_of(text) is Some ==> vstd::utf8::is_ascii_chars(text),
{
    if entry_of(text) is Some {
        assert forall|i: int| 0 <= i < text.len() implies '\0' <= #[trigger] text[i]
            <= '\u{7f}' by {
            if text[0] == '+' {
                if i > 0 {
                    assert(text[i] == text.skip(1)[i - 1]);
                }
            }
        }
    }
}

/// Reads a choice at the menu from a line as it was entered.
pub fn menu_choice(line: &str) -> (selection: Selection)
    ensures
        selection == selection_of(trimmed(line@)),
{
    select(trim(line))
}

/// Creates the account `name` with the balance that `balance_text` denotes.
/// Where it denotes none, nothing is created. Any name is taken, the empty
/// one too.
pub fn open_account(bank: &mut Bank, name: &str, balance_text: &str) -> (response: Response)
    ensures
        match amount_of(balance_text@) {
            Some(balance) => {
                &&& response == Response::AccountCreated
                &&& final(bank)@ == with_account(old(bank)@, name@, balance)
            },
            None => {
                &&& response == Response::InvalidBalance
                &&& final(bank)@ == old(bank)@
            },
        },
{
    match parse_amount(balance_text) {
        Some(balance) => {
            bank.create_account(name.to_owned(), balance);
            Response::AccountCreated
        },
        None => Response::InvalidBalance,
    }
}

/// The create command on the two lines as they were entered: the name, then
/// the balance.
pub fn create_account(bank: &mut Bank, name_line: &str, balance_line: &str) -> (response: Response)
    ensures
        match amount_of(trimmed(balance_line@)) {
            Some(balance) => {
                &&& response == Response::AccountCreated
                &&& final(bank)@ == with_account(old(bank)@, trimmed(name_line@), balance)
            },
            None => {
                &&& response == Response::InvalidBalance
                &&& final(bank)@ == old(bank)@
            },
        },
{
    open_account(bank, trim(name_line), trim(balance_line))
}

/// Whether the amount that `amount_text` denotes can be moved from `from` to
/// `to` as far as the machine goes: it is an amount, and the balances that
/// the transfer would write can be held.
pub open spec fn transferable(
    accounts: Map<Seq<char>, int>,
    from: Seq<char>,
    to: Seq<char>,
    amount_text: Seq<char>,
) -> bool {
    amount_of(amount_text) matches Some(amount) && transfer_fits(accounts, from, to, amount)
}

/// Moves the amount that `amount_text` denotes from `from` to `to`.
///
/// Where the amount is not `transferable`, the reply is `InvalidAmount`.
/// Otherwise the ledger decides, and the reply says what it decided. The
/// ledger changes only with the reply `TransactionSuccessful`.
pub fn transfer(bank: &mut Bank, from: &str, to: &str, amount_text: &str) -> (response: Response)
    ensures
        !transferable(old(bank)@, from@, to@, amount_text@) ==> {
            &&& response == Response::InvalidAmount
            &&& final(bank)@ == old(bank)@
        },
        transferable(old(bank)@, from@, to@, amount_text@) ==> {
            let amount = amount_of(amount_text@)->0;
            &&& response == match transfer_outcome(old(bank)@, from@, to@, amount) {
                Ok(_) => Response::TransactionSuccessful,
                Err(error) => Response::TransactionFailed(error),
            }
            &&& final(bank)@ == after_transfer(old(bank)@, from@, to@, amount)
        },
{
    match parse_amount(amount_text) {
        Some(amount) => {
            if bank.transaction_fits(from, to, amount) {
                match bank.transaction(from, to, amount) {
                    Ok(_) => Response::TransactionSuccessful,
                    Err(error) => Response::TransactionFailed(error),
                }
            } else {
                Response::InvalidAmount
            }
        },
        None => Response::InvalidAmount,
    }
}

/// The transfer command on the three lines as they were entered: the source,
/// the destination, then the amount.
pub fn perform_transaction(bank: &mut Bank, from_line: &str, to_line: &str, amount_line: &str) -> (response:
    Response)
    ensures
        !transferable(
            old(bank)@,
            trimmed(from_line@),
            trimmed(to_line@),
            trimmed(amount_line@),
        ) ==> {
            &&& response == Response::InvalidAmount
            &&& final(bank)@ == old(bank)@
        },
        transferable(
            old(bank)@,
            trimmed(from_line@),
            trimmed(to_line@),
            trimmed(amount_line@),
        ) ==> {
            let amount = amount_of(trimmed(amount_line@))->0;
            &&& response == match transfer_outcome(
                old(bank)@,
                trimmed(from_line@),
                trimmed(to_line@),
                amount,
            ) {
                Ok(_) => Response::TransactionSuccessful,
                Err(error) => Response::TransactionFailed(error),
            }
            &&& final(bank)@ == after_transfer(
                old(bank)@,
                trimmed(from_line@),
                trimmed(to_line@),
                amount,
            )
        },
{
    transfer(bank, trim(from_line), trim(to_line), trim(amount_line))
}

/// Reports the balance of `account`, or that there is no such account.
pub fn report_balance(bank: &Bank, account: &str) -> (response: Response)
    ensures
        match balance_in(bank@, account@) {
            Some(held) => {
                &&& response matches Response::Balance { name, balance }
                &&& name@ == account@
                &&& balance == held
            },
            None => response == Response::AccountNotFound,
        },
{
    match bank.balance(account) {
        Some(balance) => Response::Balance { name: account.to_owned(), balance },
        None => Response::AccountNotFound,
    }
}

/// The balance command on the line as it was entered.
pub fn check_balance(bank: &Bank, account_line: &str) -> (response: Response)
    ensures
        match balance_in(bank@, trimmed(account_line@)) {
            Some(held) => {
                &&& response matches Response::Balance { name, balance }
                &&& name@ == trimmed(account_line@)
                &&& balance == held
            },
            None => response == Response::AccountNotFound,
        },
{
    report_balance(bank, trim(account_line))
}

} // verus!
