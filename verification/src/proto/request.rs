//! What another plugin can ask of the economy.
use vstd::prelude::*;

use crate::proto::AccountId;

verus! {

/// Name, symbol and precision of the currency.
#[derive(Clone, Copy, Debug, PartialEq, Eq, Structural)]
pub struct GetCurrency {}

/// The balance of an account.
#[derive(Clone, Debug, PartialEq, Eq)]
pub struct GetBalance {
    pub account: Option<AccountId>,
}

/// Whether an account can cover `amount`.
#[derive(Clone, Debug, PartialEq, Eq)]
pub struct HasBalance {
    pub account: Option<AccountId>,
    pub amount: i64,
}

/// Add `amount` to an account.
#[derive(Clone, Debug, PartialEq, Eq)]
pub struct Deposit {
    pub account: Option<AccountId>,
    pub amount: i64,
    pub reason: String,
}

/// Take `amount` from an account.
#[derive(Clone, Debug, PartialEq, Eq)]
pub struct Withdraw {
    pub account: Option<AccountId>,
    pub amount: i64,
    pub reason: String,
}

/// Move `amount` from one account to another, or change neither.
#[derive(Clone, Debug, PartialEq, Eq)]
pub struct Transfer {
    pub from: Option<AccountId>,
    pub to: Option<AccountId>,
    pub amount: i64,
    pub reason: String,
}

/// Overwrite the balance of an account.
#[derive(Clone, Debug, PartialEq, Eq)]
pub struct SetBalance {
    pub account: Option<AccountId>,
    pub amount: i64,
    pub reason: String,
}

/// Open an account, with the given or the default initial balance.
#[derive(Clone, Debug, PartialEq, Eq)]
pub struct CreateAccount {
    pub account: Option<AccountId>,
    pub initial_balance: Option<i64>,
}

/// Whether an account exists.
#[derive(Clone, Debug, PartialEq, Eq)]
pub struct AccountExists {
    pub account: Option<AccountId>,
}

/// Close an account.
#[derive(Clone, Debug, PartialEq, Eq)]
pub struct DeleteAccount {
    pub account: Option<AccountId>,
}

/// The body of a request.
#[derive(Clone, Debug, PartialEq, Eq)]
pub enum Body {
    GetCurrency(GetCurrency),
    GetBalance(GetBalance),
    HasBalance(HasBalance),
    Deposit(Deposit),
    Withdraw(Withdraw),
    Transfer(Transfer),
    SetBalance(SetBalance),
    CreateAccount(CreateAccount),
    AccountExists(AccountExists),
    DeleteAccount(DeleteAccount),
}

} // verus!
