//! The economy as another plugin sees it: the requests it sends, and what it
//! makes of the replies.
use vstd::prelude::*;
use vstd::string::*;

use crate::proto::request;
use crate::proto::response::Body;
use crate::proto::{
    code_read, spec_version, spec_version_value, version_text, AccountId, AccountStatus,
    Balance, CurrencyInfo, ErrorCode, Request, Response, TransferResult, Version,
    PLUGIN_NAME, SPEC_MAJOR,
};

pub mod account;

verus! {

/// Why a call to the economy failed.
#[derive(Debug, PartialEq, Eq)]
pub enum Error {
    /// PVault is not installed, not loaded, or the host refused to route the message.
    Unreachable,
    /// PVault rejected the bytes outright rather than answering.
    Transport(String),
    /// The reply was not a response.
    Decode(String),
    /// PVault answered, but in another major version of the protocol.
    Incompatible(Version),
    /// An economy failure: insufficient funds, an unknown account, and so on.
    /// `balance` is only meaningful for insufficient funds.
    Failed { code: ErrorCode, message: String, balance: i64 },
    /// PVault answered with a body that does not match the request.
    Unexpected,
}

/// What came back from the host for a request.
pub enum Reply {
    /// The host could not deliver the request.
    Unreachable,
    /// PVault could not decode the request, and said why.
    Refused(String),
    /// The reply could not be decoded as a response, for the reason given.
    Undecodable(String),
    /// PVault answered.
    Answered(Response),
}

/// What a reply comes to: the body of the answer, or why there is none.
pub open spec fn received(reply: Reply) -> Result<Body, Error> {
    match reply {
        Reply::Unreachable => Err(Error::Unreachable),
        Reply::Refused(m) => Err(Error::Transport(m)),
        Reply::Undecodable(m) => Err(Error::Decode(m)),
        Reply::Answered(response) => if response.version is Some && response.version->0.major
            != SPEC_MAJOR {
            Err(Error::Incompatible(response.version->0))
        } else {
            match response.body {
                Some(Body::Error(e)) => Err(
                    Error::Failed { code: code_read(e.code), message: e.message, balance: e.balance },
                ),
                Some(body) => Ok(body),
                None => Err(Error::Unexpected),
            }
        },
    }
}

/// Reads a reply: the body of the answer, or the failure it reports.
pub fn receive(reply: Reply) -> (r: Result<Body, Error>)
    ensures
        r == received(reply),
{
    match reply {
        Reply::Unreachable => Err(Error::Unreachable),
        Reply::Refused(m) => Err(Error::Transport(m)),
        Reply::Undecodable(m) => Err(Error::Decode(m)),
        Reply::Answered(response) => {
            if let Some(version) = response.version {
                if !spec_version().is_compatible_with(&version) {
                    return Err(Error::Incompatible(version));
                }
            }
            match response.body {
                Some(Body::Error(error)) => {
                    let code = error.code();
                    Err(Error::Failed { code, message: error.message, balance: error.balance })
                },
                Some(body) => Ok(body),
                None => Err(Error::Unexpected),
            }
        },
    }
}

/// How each failure reads to a person.
pub open spec fn error_text(e: Error) -> Seq<char> {
    match e {
        Error::Unreachable => PLUGIN_NAME@ + " is not available"@,
        Error::Transport(m) => PLUGIN_NAME@ + " refused the message: "@ + m@,
        Error::Decode(m) => "could not read the reply: "@ + m@,
        Error::Incompatible(v) => PLUGIN_NAME@ + " speaks "@ + version_text(v)
            + ", this plugin was built against "@ + version_text(spec_version_value()),
        Error::Failed { message, .. } => message@,
        Error::Unexpected => PLUGIN_NAME@ + " answered a different question"@,
    }
}

impl Error {
    /// Whether the failure was specifically an empty wallet.
    pub fn is_insufficient_funds(&self) -> (r: bool)
        ensures
            r == (*self matches Error::Failed { code, .. } && code == ErrorCode::InsufficientFunds),
    {
        match self {
            Error::Failed { code, .. } => match code {
                ErrorCode::InsufficientFunds => true,
                _ => false,
            },
            _ => false,
        }
    }

    /// The failure as a sentence.
    pub fn to_string(&self) -> (r: String)
        ensures
            r@ == error_text(*self),
    {
        match self {
            Error::Unreachable => {
                let mut r = String::from_str(PLUGIN_NAME);
                r.append(" is not available");
                r
            },
            Error::Transport(m) => {
                let mut r = String::from_str(PLUGIN_NAME);
                r.append(" refused the message: ");
                r.append(m.as_str());
                r
            },
            Error::Decode(m) => {
                let mut r = String::from_str("could not read the reply: ");
                r.append(m.as_str());
                r
            },
            Error::Incompatible(v) => {
                let mut r = String::from_str(PLUGIN_NAME);
                r.append(" speaks ");
                let theirs = v.to_string();
                r.append(theirs.as_str());
                r.append(", this plugin was built against ");
                let ours = spec_version().to_string();
                r.append(ours.as_str());
                r
            },
            Error::Failed { message, .. } => message.clone(),
            Error::Unexpected => {
                let mut r = String::from_str(PLUGIN_NAME);
                r.append(" answered a different question");
                r
            },
        }
    }
}

/// A request of this library's version with the given body.
pub open spec fn asks(r: Request, body: request::Body) -> bool {
    r.version == Some(spec_version_value()) && r.body == Some(body)
}

/// The account of a request names the given account.
pub open spec fn names(id: Option<AccountId>, account: AccountId) -> bool {
    id matches Some(a) && a@ == account@
}

/// The calls another plugin makes to the economy. Each call is a request
/// built by one of the `_request` functions, sent to PVault by the host, and
/// a reply read by the function of the same name.
pub struct Economy;

impl Economy {
    /// Asks for the name, symbol and precision of the server's currency.
    pub fn currency_request() -> (r: Request)
        ensures
            asks(r, request::Body::GetCurrency(request::GetCurrency {})),
    {
        Request::new(request::Body::GetCurrency(request::GetCurrency {}))
    }

    /// Reads the currency out of a reply.
    pub fn currency(reply: Reply) -> (r: Result<CurrencyInfo, Error>)
        ensures
            r == match received(reply) {
                Ok(Body::Currency(info)) => Ok(info),
                Ok(_) => Err(Error::Unexpected),
                Err(e) => Err(e),
            },
    {
        match receive(reply)? {
            Body::Currency(info) => Ok(info),
            _ => Err(Error::Unexpected),
        }
    }

    /// Asks for the balance of an account.
    pub fn balance_request(account: &AccountId) -> (r: Request)
        ensures
            r.version == Some(spec_version_value()),
            r.body matches Some(request::Body::GetBalance(g)) && names(g.account, *account),
    {
        Request::new(request::Body::GetBalance(request::GetBalance { account: Some(account.clone()) }))
    }

    /// Reads a balance out of a reply.
    pub fn balance(reply: Reply) -> (r: Result<i64, Error>)
        ensures
            r == match received(reply) {
                Ok(Body::Balance(b)) => Ok(b.amount),
                Ok(_) => Err(Error::Unexpected),
                Err(e) => Err(e),
            },
    {
        match receive(reply)? {
            Body::Balance(b) => Ok(b.amount),
            _ => Err(Error::Unexpected),
        }
    }

    /// Asks whether an account can cover an amount.
    pub fn has_request(account: &AccountId, amount: i64) -> (r: Request)
        ensures
            r.version == Some(spec_version_value()),
            r.body matches Some(request::Body::HasBalance(h)) && names(h.account, *account)
                && h.amount == amount,
    {
        Request::new(
            request::Body::HasBalance(request::HasBalance { account: Some(account.clone()), amount }),
        )
    }

    /// Reads out of a reply whether the balance suffices.
    pub fn has(reply: Reply) -> (r: Result<bool, Error>)
        ensures
            r == match received(reply) {
                Ok(Body::HasBalance(h)) => Ok(h.sufficient),
                Ok(_) => Err(Error::Unexpected),
                Err(e) => Err(e),
            },
    {
        match receive(reply)? {
            Body::HasBalance(h) => Ok(h.sufficient),
            _ => Err(Error::Unexpected),
        }
    }

    /// Asks to add an amount to an account.
    pub fn deposit_request(account: &AccountId, amount: i64, reason: &str) -> (r: Request)
        ensures
            r.version == Some(spec_version_value()),
            r.body matches Some(request::Body::Deposit(d)) && names(d.account, *account)
                && d.amount == amount && d.reason@ == reason@,
    {
        Request::new(
            request::Body::Deposit(
                request::Deposit { account: Some(account.clone()), amount, reason: reason.to_owned() },
            ),
        )
    }

    /// Reads the new balance out of the reply to a deposit.
    pub fn deposit(reply: Reply) -> (r: Result<Balance, Error>)
        ensures
            r == balance_reply(received(reply)),
    {
        Self::balance_of(reply)
    }

    /// Asks to take an amount from an account.
    pub fn withdraw_request(account: &AccountId, amount: i64, reason: &str) -> (r: Request)
        ensures
            r.version == Some(spec_version_value()),
            r.body matches Some(request::Body::Withdraw(w)) && names(w.account, *account)
                && w.amount == amount && w.reason@ == reason@,
    {
        Request::new(
            request::Body::Withdraw(
                request::Withdraw { account: Some(account.clone()), amount, reason: reason.to_owned() },
            ),
        )
    }

    /// Reads the new balance out of the reply to a withdrawal.
    pub fn withdraw(reply: Reply) -> (r: Result<Balance, Error>)
        ensures
            r == balance_reply(received(reply)),
    {
        Self::balance_of(reply)
    }

    /// Asks to move an amount between two accounts, or change neither.
    pub fn transfer_request(from: &AccountId, to: &AccountId, amount: i64, reason: &str) -> (r:
        Request)
        ensures
            r.version == Some(spec_version_value()),
            r.body matches Some(request::Body::Transfer(t)) && names(t.from, *from) && names(
                t.to,
                *to,
            ) && t.amount == amount && t.reason@ == reason@,
    {
        Request::new(
            request::Body::Transfer(
                request::Transfer {
                    from: Some(from.clone()),
                    to: Some(to.clone()),
                    amount,
                    reason: reason.to_owned(),
                },
            ),
        )
    }

    /// Reads both sides of a transfer out of its reply.
    pub fn transfer(reply: Reply) -> (r: Result<TransferResult, Error>)
        ensures
            r == match received(reply) {
                Ok(Body::Transfer(t)) => Ok(t),
                Ok(_) => Err(Error::Unexpected),
                Err(e) => Err(e),
            },
    {
        match receive(reply)? {
            Body::Transfer(t) => Ok(t),
            _ => Err(Error::Unexpected),
        }
    }

    /// Asks to overwrite the balance of an account. Only the plugin that
    /// created a named account may.
    pub fn set_balance_request(account: &AccountId, amount: i64, reason: &str) -> (r: Request)
        ensures
            r.version == Some(spec_version_value()),
            r.body matches Some(request::Body::SetBalance(b)) && names(b.account, *account)
                && b.amount == amount && b.reason@ == reason@,
    {
        Request::new(
            request::Body::SetBalance(
                request::SetBalance {
                    account: Some(account.clone()),
                    amount,
                    reason: reason.to_owned(),
                },
            ),
        )
    }

    /// Reads the new balance out of the reply to a set.
    pub fn set_balance(reply: Reply) -> (r: Result<Balance, Error>)
        ensures
            r == balance_reply(received(reply)),
    {
        Self::balance_of(reply)
    }

    /// Asks to open an account. Named accounts must exist before they can be used.
    pub fn create_account_request(account: &AccountId, initial_balance: Option<i64>) -> (r: Request)
        ensures
            r.version == Some(spec_version_value()),
            r.body matches Some(request::Body::CreateAccount(c)) && names(c.account, *account)
                && c.initial_balance == initial_balance,
    {
        Request::new(
            request::Body::CreateAccount(
                request::CreateAccount { account: Some(account.clone()), initial_balance },
            ),
        )
    }

    /// Reads the opening balance out of the reply to a creation.
    pub fn create_account(reply: Reply) -> (r: Result<i64, Error>)
        ensures
            r == match status_reply(received(reply)) {
                Ok(s) => Ok(s.balance),
                Err(e) => Err::<i64, Error>(e),
            },
    {
        match Self::status(reply) {
            Ok(s) => Ok(s.balance),
            Err(e) => Err(e),
        }
    }

    /// Asks whether an account exists.
    pub fn account_exists_request(account: &AccountId) -> (r: Request)
        ensures
            r.version == Some(spec_version_value()),
            r.body matches Some(request::Body::AccountExists(x)) && names(x.account, *account),
    {
        Request::new(
            request::Body::AccountExists(request::AccountExists { account: Some(account.clone()) }),
        )
    }

    /// Reads out of a reply whether the account exists.
    pub fn account_exists(reply: Reply) -> (r: Result<bool, Error>)
        ensures
            r == match status_reply(received(reply)) {
                Ok(s) => Ok(s.exists),
                Err(e) => Err::<bool, Error>(e),
            },
    {
        match Self::status(reply) {
            Ok(s) => Ok(s.exists),
            Err(e) => Err(e),
        }
    }

    /// Asks to close an account.
    pub fn delete_account_request(account: &AccountId) -> (r: Request)
        ensures
            r.version == Some(spec_version_value()),
            r.body matches Some(request::Body::DeleteAccount(x)) && names(x.account, *account),
    {
        Request::new(
            request::Body::DeleteAccount(request::DeleteAccount { account: Some(account.clone()) }),
        )
    }

    /// Reads out of a reply whether the account was closed.
    pub fn delete_account(reply: Reply) -> (r: Result<(), Error>)
        ensures
            r == match status_reply(received(reply)) {
                Ok(_) => Ok(()),
                Err(e) => Err::<(), Error>(e),
            },
    {
        match Self::status(reply) {
            Ok(_) => Ok(()),
            Err(e) => Err(e),
        }
    }

    fn balance_of(reply: Reply) -> (r: Result<Balance, Error>)
        ensures
            r == balance_reply(received(reply)),
    {
        match receive(reply)? {
            Body::Balance(b) => Ok(b),
            _ => Err(Error::Unexpected),
        }
    }

    fn status(reply: Reply) -> (r: Result<AccountStatus, Error>)
        ensures
            r == status_reply(received(reply)),
    {
        match receive(reply)? {
            Body::Account(s) => Ok(s),
            _ => Err(Error::Unexpected),
        }
    }
}

/// A balance out of a received body.
pub open spec fn balance_reply(r: Result<Body, Error>) -> Result<Balance, Error> {
    match r {
        Ok(Body::Balance(b)) => Ok(b),
        Ok(_) => Err(Error::Unexpected),
        Err(e) => Err(e),
    }
}

/// An account status out of a received body.
pub open spec fn status_reply(r: Result<Body, Error>) -> Result<AccountStatus, Error> {
    match r {
        Ok(Body::Account(s)) => Ok(s),
        Ok(_) => Err(Error::Unexpected),
        Err(e) => Err(e),
    }
}

/// Law: an answer is refused as incompatible exactly when it comes in another
/// major version of the protocol. Minor and patch numbers are advisory: an
/// answer in any minor or patch of this major version reads as the same
/// answer carrying no version, by its body alone.
pub proof fn lemma_only_other_majors_are_incompatible(response: Response)
    ensures
        (received(Reply::Answered(response)) matches Err(Error::Incompatible(v)) && v
            == response.version->0) <==> (response.version matches Some(v) && v.major
            != SPEC_MAJOR),
        (received(Reply::Answered(response)) matches Err(Error::Incompatible(_))) ==> (
        response.version matches Some(v) && v.major != SPEC_MAJOR),
        (response.version matches Some(v) && v.major == SPEC_MAJOR) ==> received(
            Reply::Answered(response),
        ) == received(Reply::Answered(Response { version: None, body: response.body })),
        (response.version is None || response.version->0.major == SPEC_MAJOR) ==> (
        response.body matches Some(b) ==> (!(b is Error) ==> received(Reply::Answered(response))
            == Ok::<Body, Error>(b))),
{
}

} // verus!
