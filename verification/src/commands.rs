//! What the plugin's chat commands ask of the economy, and how its answers
//! are told back.
use vstd::prelude::*;
use vstd::string::*;

use crate::proto::request;
use crate::proto::response::Body;
use crate::proto::{AccountId, Response};

verus! {

/// What `/eco` does to a player's balance.
#[derive(Clone, Copy, Debug, PartialEq, Eq, Structural)]
pub enum Action {
    Give,
    Take,
    SetTo,
    Reset,
}

/// The request body of an `/eco` action; `amount` is the starting balance
/// for a reset.
pub open spec fn eco_body_spec(action: Action, account: AccountId, amount: i64, reason: String) -> request::Body {
    match action {
        Action::Give => request::Body::Deposit(
            request::Deposit { account: Some(account), amount, reason },
        ),
        Action::Take => request::Body::Withdraw(
            request::Withdraw { account: Some(account), amount, reason },
        ),
        Action::SetTo | Action::Reset => request::Body::SetBalance(
            request::SetBalance { account: Some(account), amount, reason },
        ),
    }
}

/// The request body of an `/eco` action.
pub fn eco_body(action: Action, account: AccountId, amount: i64, reason: String) -> (r: request::Body)
    ensures
        r == eco_body_spec(action, account, amount, reason),
{
    match action {
        Action::Give => request::Body::Deposit(
            request::Deposit { account: Some(account), amount, reason },
        ),
        Action::Take => request::Body::Withdraw(
            request::Withdraw { account: Some(account), amount, reason },
        ),
        Action::SetTo | Action::Reset => request::Body::SetBalance(
            request::SetBalance { account: Some(account), amount, reason },
        ),
    }
}

/// The request body of `/pay`: a transfer from the payer to the payee.
pub fn pay_body(payer: AccountId, payee: AccountId, amount: i64, reason: String) -> (r: request::Body)
    ensures
        r == request::Body::Transfer(
            request::Transfer { from: Some(payer), to: Some(payee), amount, reason },
        ),
{
    request::Body::Transfer(request::Transfer { from: Some(payer), to: Some(payee), amount, reason })
}

/// What a command tells the player when the economy did not answer as hoped:
/// the error's message, or a note that the answer was unexpected.
pub open spec fn describe_text(response: Response) -> Seq<char> {
    match response.body {
        Some(Body::Error(e)) => e.message@,
        _ => "PVault returned something unexpected."@,
    }
}

pub fn describe(response: &Response) -> (r: String)
    ensures
        r@ == describe_text(*response),
{
    match &response.body {
        Some(Body::Error(error)) => error.message.clone(),
        _ => String::from_str("PVault returned something unexpected."),
    }
}

} // verus!
