//! The messages of the PVault economy protocol, version 1: what other plugins
//! send (`Request`) and what they get back (`Response`), with the views that
//! contracts speak of.
use vstd::prelude::*;
use vstd::string::*;

use crate::text::{decimal, decimal_string};

pub mod account_id;
pub mod request;
pub mod response;

pub use request::{
    AccountExists, CreateAccount, DeleteAccount, Deposit, GetBalance, GetCurrency, HasBalance,
    SetBalance, Transfer, Withdraw,
};

verus! {

/// The plugin name PVault is registered under, and therefore the IPC recipient id.
pub const PLUGIN_NAME: &'static str = "PVault";

/// Major version of the protocol that this library speaks.
pub const SPEC_MAJOR: u32 = 1;

/// Minor version of the protocol that this library speaks.
pub const SPEC_MINOR: u32 = 0;

/// Patch version of the protocol that this library speaks.
pub const SPEC_PATCH: u32 = 0;

/// A semantic version of the protocol.
#[derive(Clone, Copy, Debug, PartialEq, Eq, Structural)]
pub struct Version {
    pub major: u32,
    pub minor: u32,
    pub patch: u32,
}

/// The version of the protocol that this library implements.
pub open spec fn spec_version_value() -> Version {
    Version { major: SPEC_MAJOR, minor: SPEC_MINOR, patch: SPEC_PATCH }
}

/// The version of the protocol that this library implements.
pub fn spec_version() -> (v: Version)
    ensures
        v == spec_version_value(),
{
    Version { major: SPEC_MAJOR, minor: SPEC_MINOR, patch: SPEC_PATCH }
}

/// `major.minor.patch`.
pub open spec fn version_text(v: Version) -> Seq<char> {
    decimal(v.major as nat) + "."@ + decimal(v.minor as nat) + "."@ + decimal(v.patch as nat)
}

impl Version {
    /// Whether a peer speaking `self` can talk to a peer speaking `other`:
    /// only the major version has to match.
    pub fn is_compatible_with(&self, other: &Self) -> (r: bool)
        ensures
            r == (self.major == other.major),
    {
        self.major == other.major
    }

    /// `major.minor.patch`, as the version is written for people.
    pub fn to_string(&self) -> (r: String)
        ensures
            r@ == version_text(*self),
    {
        let mut r = decimal_string(self.major as u64);
        r.append(".");
        let minor = decimal_string(self.minor as u64);
        r.append(minor.as_str());
        r.append(".");
        let patch = decimal_string(self.patch as u64);
        r.append(patch.as_str());
        r
    }
}

/// How an account is identified on the wire: a player's 16-byte uuid, or a
/// `namespace:key` name.
#[derive(Debug, PartialEq, Eq)]
pub struct AccountId {
    pub kind: Option<account_id::Kind>,
}

impl Clone for AccountId {
    fn clone(&self) -> (r: Self)
        ensures
            r@ == self@,
    {
        match &self.kind {
            None => AccountId { kind: None },
            Some(account_id::Kind::Player(bytes)) => {
                let copy = bytes.clone();
                assert(copy@ =~= bytes@);
                AccountId { kind: Some(account_id::Kind::Player(copy)) }
            },
            Some(account_id::Kind::Named(name)) => AccountId {
                kind: Some(account_id::Kind::Named(name.clone())),
            },
        }
    }
}

/// What an account id holds, as plain values.
pub enum IdView {
    Player(Seq<u8>),
    Named(Seq<char>),
}

impl View for AccountId {
    type V = Option<IdView>;

    open spec fn view(&self) -> Option<IdView> {
        match self.kind {
            Some(account_id::Kind::Player(bytes)) => Some(IdView::Player(bytes@)),
            Some(account_id::Kind::Named(name)) => Some(IdView::Named(name@)),
            None => None,
        }
    }
}

impl AccountId {
    /// An account belonging to a player, identified by their uuid.
    pub fn player(uuid: [u8; 16]) -> (r: AccountId)
        ensures
            r@ == Some(IdView::Player(uuid@)),
    {
        let mut bytes: Vec<u8> = Vec::new();
        let mut i: usize = 0;
        while i < 16
            invariant
                i <= 16,
                bytes@ == uuid@.subrange(0, i as int),
            decreases 16 - i,
        {
            bytes.push(uuid[i]);
            i = i + 1;
            assert(bytes@ =~= uuid@.subrange(0, i as int));
        }
        assert(bytes@ =~= uuid@);
        AccountId { kind: Some(account_id::Kind::Player(bytes)) }
    }

    /// A named account `namespace:key`, such as a shop till or town treasury.
    pub fn named(namespace: &str, key: &str) -> (r: AccountId)
        ensures
            r@ == Some(IdView::Named(namespace@ + ":"@ + key@)),
    {
        let mut name = String::from_str(namespace);
        name.append(":");
        name.append(key);
        AccountId { kind: Some(account_id::Kind::Named(name)) }
    }
}

/// The reasons a request can fail. Unknown numbers read as `Unspecified`.
#[derive(Clone, Copy, Debug, PartialEq, Eq, Structural)]
pub enum ErrorCode {
    Unspecified,
    Malformed,
    VersionMismatch,
    UnknownRequest,
    InvalidAccount,
    AccountNotFound,
    AccountExists,
    InsufficientFunds,
    InvalidAmount,
    PermissionDenied,
    Overflow,
    StorageError,
}

/// The wire number of each error code.
pub open spec fn code_number(code: ErrorCode) -> i32 {
    match code {
        ErrorCode::Unspecified => 0,
        ErrorCode::Malformed => 1,
        ErrorCode::VersionMismatch => 2,
        ErrorCode::UnknownRequest => 3,
        ErrorCode::InvalidAccount => 4,
        ErrorCode::AccountNotFound => 5,
        ErrorCode::AccountExists => 6,
        ErrorCode::InsufficientFunds => 7,
        ErrorCode::InvalidAmount => 8,
        ErrorCode::PermissionDenied => 9,
        ErrorCode::Overflow => 10,
        ErrorCode::StorageError => 11,
    }
}

/// The error code with a wire number, if any.
pub open spec fn code_of_number(n: i32) -> Option<ErrorCode> {
    if n == 0 {
        Some(ErrorCode::Unspecified)
    } else if n == 1 {
        Some(ErrorCode::Malformed)
    } else if n == 2 {
        Some(ErrorCode::VersionMismatch)
    } else if n == 3 {
        Some(ErrorCode::UnknownRequest)
    } else if n == 4 {
        Some(ErrorCode::InvalidAccount)
    } else if n == 5 {
        Some(ErrorCode::AccountNotFound)
    } else if n == 6 {
        Some(ErrorCode::AccountExists)
    } else if n == 7 {
        Some(ErrorCode::InsufficientFunds)
    } else if n == 8 {
        Some(ErrorCode::InvalidAmount)
    } else if n == 9 {
        Some(ErrorCode::PermissionDenied)
    } else if n == 10 {
        Some(ErrorCode::Overflow)
    } else if n == 11 {
        Some(ErrorCode::StorageError)
    } else {
        None
    }
}

impl ErrorCode {
    /// The wire number of the code.
    pub fn number(self) -> (r: i32)
        ensures
            r == code_number(self),
    {
        match self {
            ErrorCode::Unspecified => 0,
            ErrorCode::Malformed => 1,
            ErrorCode::VersionMismatch => 2,
            ErrorCode::UnknownRequest => 3,
            ErrorCode::InvalidAccount => 4,
            ErrorCode::AccountNotFound => 5,
            ErrorCode::AccountExists => 6,
            ErrorCode::InsufficientFunds => 7,
            ErrorCode::InvalidAmount => 8,
            ErrorCode::PermissionDenied => 9,
            ErrorCode::Overflow => 10,
            ErrorCode::StorageError => 11,
        }
    }

    /// The code with a wire number, if the number is known.
    pub fn from_number(n: i32) -> (r: Option<ErrorCode>)
        ensures
            r == code_of_number(n),
    {
        if n == 0 {
            Some(ErrorCode::Unspecified)
        } else if n == 1 {
            Some(ErrorCode::Malformed)
        } else if n == 2 {
            Some(ErrorCode::VersionMismatch)
        } else if n == 3 {
            Some(ErrorCode::UnknownRequest)
        } else if n == 4 {
            Some(ErrorCode::InvalidAccount)
        } else if n == 5 {
            Some(ErrorCode::AccountNotFound)
        } else if n == 6 {
            Some(ErrorCode::AccountExists)
        } else if n == 7 {
            Some(ErrorCode::InsufficientFunds)
        } else if n == 8 {
            Some(ErrorCode::InvalidAmount)
        } else if n == 9 {
            Some(ErrorCode::PermissionDenied)
        } else if n == 10 {
            Some(ErrorCode::Overflow)
        } else if n == 11 {
            Some(ErrorCode::StorageError)
        } else {
            None
        }
    }
}

/// Every code survives the trip through its wire number.
pub proof fn lemma_code_number_round_trip(code: ErrorCode)
    ensures
        code_of_number(code_number(code)) == Some(code),
{
}

/// What went wrong with a request. `balance` is only meaningful for
/// insufficient funds.
#[derive(Clone, Debug, PartialEq, Eq)]
pub struct Error {
    pub code: i32,
    pub message: String,
    pub balance: i64,
}

/// An error as plain values.
pub struct ErrorView {
    pub code: i32,
    pub message: Seq<char>,
    pub balance: i64,
}

impl View for Error {
    type V = ErrorView;

    open spec fn view(&self) -> ErrorView {
        ErrorView { code: self.code, message: self.message@, balance: self.balance }
    }
}

/// The code of an error as its reader sees it: unknown numbers are `Unspecified`.
pub open spec fn code_read(n: i32) -> ErrorCode {
    match code_of_number(n) {
        Some(code) => code,
        None => ErrorCode::Unspecified,
    }
}

impl Error {
    pub fn new(code: ErrorCode, message: String) -> (r: Error)
        ensures
            r@ == (ErrorView { code: code_number(code), message: message@, balance: 0 }),
    {
        Error { code: code.number(), message, balance: 0 }
    }

    /// The code, with numbers this version does not know read as `Unspecified`.
    pub fn code(&self) -> (r: ErrorCode)
        ensures
            r == code_read(self.code),
    {
        match ErrorCode::from_number(self.code) {
            Some(code) => code,
            None => ErrorCode::Unspecified,
        }
    }
}

/// Name, symbol and precision of the server's currency.
#[derive(Clone, Debug, PartialEq, Eq)]
pub struct CurrencyInfo {
    pub name: String,
    pub plural: String,
    pub symbol: String,
    pub fraction_digits: u32,
    pub starting_balance: i64,
}

/// Currency information as plain values.
pub struct CurrencyView {
    pub name: Seq<char>,
    pub plural: Seq<char>,
    pub symbol: Seq<char>,
    pub fraction_digits: u32,
    pub starting_balance: i64,
}

impl View for CurrencyInfo {
    type V = CurrencyView;

    open spec fn view(&self) -> CurrencyView {
        CurrencyView {
            name: self.name@,
            plural: self.plural@,
            symbol: self.symbol@,
            fraction_digits: self.fraction_digits,
            starting_balance: self.starting_balance,
        }
    }
}

/// The balance of an account, with the balance before the change on mutations.
#[derive(Clone, Debug, PartialEq, Eq)]
pub struct Balance {
    pub account: Option<AccountId>,
    pub amount: i64,
    pub previous: i64,
}

/// A balance as plain values.
pub struct BalanceView {
    pub account: Option<Option<IdView>>,
    pub amount: i64,
    pub previous: i64,
}

impl View for Balance {
    type V = BalanceView;

    open spec fn view(&self) -> BalanceView {
        BalanceView {
            account: match self.account {
                Some(id) => Some(id@),
                None => None,
            },
            amount: self.amount,
            previous: self.previous,
        }
    }
}

/// Whether an account can cover an amount, and its balance.
#[derive(Clone, Copy, Debug, PartialEq, Eq, Structural)]
pub struct HasBalanceResult {
    pub sufficient: bool,
    pub balance: i64,
}

/// Both sides of a transfer.
#[derive(Clone, Debug, PartialEq, Eq)]
pub struct TransferResult {
    pub from: Option<Balance>,
    pub to: Option<Balance>,
}

/// Whether an account exists, and its balance.
#[derive(Clone, Copy, Debug, PartialEq, Eq, Structural)]
pub struct AccountStatus {
    pub exists: bool,
    pub balance: i64,
}

/// A request: the protocol version it was written for, and what it asks.
#[derive(Clone, Debug, PartialEq, Eq)]
pub struct Request {
    pub version: Option<Version>,
    pub body: Option<request::Body>,
}

/// A response: the version that answered, and the answer.
#[derive(Clone, Debug, PartialEq, Eq)]
pub struct Response {
    pub version: Option<Version>,
    pub body: Option<response::Body>,
}

/// A response as plain values.
pub struct ResponseView {
    pub version: Option<Version>,
    pub body: Option<response::BodyView>,
}

impl View for Response {
    type V = ResponseView;

    open spec fn view(&self) -> ResponseView {
        ResponseView {
            version: self.version,
            body: match self.body {
                Some(b) => Some(b@),
                None => None,
            },
        }
    }
}

impl Request {
    /// A request in this library's version of the protocol.
    pub fn new(body: request::Body) -> (r: Request)
        ensures
            r.version == Some(spec_version_value()),
            r.body == Some(body),
    {
        Request { version: Some(spec_version()), body: Some(body) }
    }
}

/// A response in this library's version of the protocol, as plain values.
pub open spec fn answer(body: response::BodyView) -> ResponseView {
    ResponseView { version: Some(spec_version_value()), body: Some(body) }
}

/// An error response as plain values.
pub open spec fn failure(code: ErrorCode, message: Seq<char>) -> ResponseView {
    answer(response::BodyView::Error(ErrorView { code: code_number(code), message, balance: 0 }))
}

impl Response {
    /// A response in this library's version of the protocol.
    pub fn new(body: response::Body) -> (r: Response)
        ensures
            r@ == answer(body@),
    {
        Response { version: Some(spec_version()), body: Some(body) }
    }

    /// An error response.
    pub fn error(code: ErrorCode, message: String) -> (r: Response)
        ensures
            r@ == failure(code, message@),
    {
        Response::new(response::Body::Error(Error::new(code, message)))
    }
}

} // verus!
