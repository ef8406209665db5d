//! The ledger: the balances of all accounts, how a request is planned into a
//! response and a journal entry, and how an entry is applied.
use vstd::prelude::*;
use vstd::string::*;

use crate::account::{
    id_view, invalid_account_text, parse_id, storage_text, AccountKey, AccountView,
    InvalidAccount,
};
use crate::config::Config;
use crate::journal::{Effect, EffectView, LogEntry, LogEntryView, Snapshot, SNAPSHOT_FORMAT};
use crate::proto::request;
use crate::proto::response::{Body, BodyView};
use crate::proto::{
    answer, code_number, failure, spec_version, spec_version_value, version_text, AccountId,
    AccountStatus, Balance, BalanceView, CurrencyInfo, CurrencyView, ErrorCode, ErrorView,
    HasBalanceResult, IdView, Request, Response, ResponseView, TransferResult, PLUGIN_NAME,
};
use crate::table::AccountTable;

verus! {

/// The sender name of PVault's own commands, which bypass ownership.
pub const ADMIN_SENDER: &'static str = PLUGIN_NAME;

/// What planning a request gives: the response, and the journal entry to
/// apply if the request changes anything.
pub struct Outcome {
    pub response: Response,
    pub entry: Option<LogEntry>,
}

/// An outcome as plain values.
pub struct OutcomeView {
    pub response: ResponseView,
    pub entry: Option<LogEntryView>,
}

impl View for Outcome {
    type V = OutcomeView;

    open spec fn view(&self) -> OutcomeView {
        OutcomeView {
            response: self.response@,
            entry: match self.entry {
                Some(e) => Some(e@),
                None => None,
            },
        }
    }
}

/// The economy: its settings, its accounts, and the sequence number of the
/// last journal entry it holds.
pub struct Economy {
    config: Config,
    accounts: AccountTable,
    seq: u64,
}

/// The economy as plain values.
pub struct EconomyView {
    pub config: Config,
    pub accounts: Map<IdView, AccountView>,
    pub seq: u64,
}

impl View for Economy {
    type V = EconomyView;

    closed spec fn view(&self) -> EconomyView {
        EconomyView { config: self.config, accounts: self.accounts@, seq: self.seq }
    }
}

// ---------------------------------------------------------------------------
// What the economy reads and answers.

/// The balance of an account. An account that does not exist reads as the
/// starting balance for a player and as 0 for a name.
pub open spec fn balance_in(e: EconomyView, k: IdView) -> i64 {
    if e.accounts.contains_key(k) {
        e.accounts[k].balance
    } else if k is Player {
        e.config.starting_balance
    } else {
        0
    }
}

/// The message of an unknown named account.
pub open spec fn not_found_text(k: IdView) -> Seq<char> {
    "no account named "@ + storage_text(k)
}

/// An account id read off a request, or the response that refuses it.
pub open spec fn resolved(id: Option<IdView>) -> Result<IdView, ResponseView> {
    match parse_id(id) {
        Ok(k) => Ok(k),
        Err(InvalidAccount::Missing) => Err(
            failure(ErrorCode::Malformed, invalid_account_text(InvalidAccount::Missing)),
        ),
        Err(e) => Err(failure(ErrorCode::InvalidAccount, invalid_account_text(e))),
    }
}

/// An account id that must name a player or an existing account.
pub open spec fn resolved_existing(e: EconomyView, id: Option<IdView>) -> Result<
    IdView,
    ResponseView,
> {
    match resolved(id) {
        Ok(k) => if k is Player || e.accounts.contains_key(k) {
            Ok(k)
        } else {
            Err(failure(ErrorCode::AccountNotFound, not_found_text(k)))
        },
        Err(r) => Err(r),
    }
}

/// What an optional account id of a request holds.
pub open spec fn opt_id(id: Option<AccountId>) -> Option<IdView> {
    match id {
        Some(id) => id@,
        None => None,
    }
}

/// The refusal of a negative amount.
pub open spec fn negative_amount() -> ResponseView {
    failure(ErrorCode::InvalidAmount, "amounts cannot be negative"@)
}

/// The refusal of a balance past `i64::MAX`.
pub open spec fn overflowed() -> ResponseView {
    failure(ErrorCode::Overflow, "that would push the balance past the maximum"@)
}

/// The refusal of an account that cannot cover an amount, with its balance.
pub open spec fn insufficient(balance: i64) -> ResponseView {
    answer(
        BodyView::Error(
            ErrorView {
                code: code_number(ErrorCode::InsufficientFunds),
                message: "not enough funds"@,
                balance,
            },
        ),
    )
}

/// The refusal of a sender who does not own a named account, if it is one.
pub open spec fn owner_refusal(e: EconomyView, sender: Seq<char>, k: IdView) -> Option<
    ResponseView,
> {
    if sender == ADMIN_SENDER@ {
        None
    } else if e.accounts.contains_key(k) && e.accounts[k].owner is Some
        && e.accounts[k].owner->0 != sender {
        Some(
            failure(
                ErrorCode::PermissionDenied,
                "account "@ + storage_text(k) + " belongs to "@ + e.accounts[k].owner->0,
            ),
        )
    } else {
        None
    }
}

/// The effect that gives an account a balance, keeping its owner.
pub open spec fn set_effect_of(e: EconomyView, k: IdView, balance: i64) -> EffectView {
    EffectView::Assign {
        account: k,
        balance,
        owner: if e.accounts.contains_key(k) {
            e.accounts[k].owner
        } else {
            None
        },
    }
}

/// A balance in a response.
pub open spec fn balance_view(k: IdView, amount: i64, previous: i64) -> BalanceView {
    BalanceView { account: Some(Some(k)), amount, previous }
}

/// A response with one balance.
pub open spec fn balance_answer(k: IdView, amount: i64, previous: i64) -> ResponseView {
    answer(BodyView::Balance(balance_view(k, amount, previous)))
}

/// An outcome that changes nothing.
pub open spec fn read(response: ResponseView) -> OutcomeView {
    OutcomeView { response, entry: None }
}

/// An outcome that journals `effects` as the next entry.
pub open spec fn write(
    e: EconomyView,
    sender: Seq<char>,
    now: u64,
    op: Seq<char>,
    reason: Seq<char>,
    effects: Seq<EffectView>,
    response: ResponseView,
) -> OutcomeView {
    OutcomeView {
        response,
        entry: Some(
            LogEntryView { seq: (e.seq + 1) as u64, time: now, sender, op, reason, effects },
        ),
    }
}

pub open spec fn currency_outcome(e: EconomyView) -> OutcomeView {
    read(
        answer(
            BodyView::Currency(
                CurrencyView {
                    name: e.config.currency_name@,
                    plural: e.config.currency_plural@,
                    symbol: e.config.currency_symbol@,
                    fraction_digits: e.config.fraction_digits,
                    starting_balance: e.config.starting_balance,
                },
            ),
        ),
    )
}

pub open spec fn get_balance_outcome(e: EconomyView, req: request::GetBalance) -> OutcomeView {
    match resolved_existing(e, opt_id(req.account)) {
        Err(r) => read(r),
        Ok(k) => read(balance_answer(k, balance_in(e, k), balance_in(e, k))),
    }
}

pub open spec fn has_balance_outcome(e: EconomyView, req: request::HasBalance) -> OutcomeView {
    match resolved_existing(e, opt_id(req.account)) {
        Err(r) => read(r),
        Ok(k) => if req.amount < 0 {
            read(negative_amount())
        } else {
            read(
                answer(
                    BodyView::HasBalance(
                        HasBalanceResult {
                            sufficient: balance_in(e, k) >= req.amount,
                            balance: balance_in(e, k),
                        },
                    ),
                ),
            )
        },
    }
}

pub open spec fn account_exists_outcome(e: EconomyView, req: request::AccountExists) -> OutcomeView {
    match resolved(opt_id(req.account)) {
        Err(r) => read(r),
        Ok(k) => read(
            answer(
                BodyView::Account(
                    AccountStatus { exists: e.accounts.contains_key(k), balance: balance_in(e, k) },
                ),
            ),
        ),
    }
}

pub open spec fn deposit_outcome(
    e: EconomyView,
    sender: Seq<char>,
    now: u64,
    req: request::Deposit,
) -> OutcomeView {
    match resolved_existing(e, opt_id(req.account)) {
        Err(r) => read(r),
        Ok(k) => if req.amount < 0 {
            read(negative_amount())
        } else {
            let previous = balance_in(e, k);
            let balance = previous + req.amount;
            if balance > i64::MAX {
                read(overflowed())
            } else {
                write(
                    e,
                    sender,
                    now,
                    "deposit"@,
                    req.reason@,
                    seq![set_effect_of(e, k, balance as i64)],
                    balance_answer(k, balance as i64, previous),
                )
            }
        },
    }
}

pub open spec fn withdraw_outcome(
    e: EconomyView,
    sender: Seq<char>,
    now: u64,
    req: request::Withdraw,
) -> OutcomeView {
    match resolved_existing(e, opt_id(req.account)) {
        Err(r) => read(r),
        Ok(k) => if req.amount < 0 {
            read(negative_amount())
        } else {
            let previous = balance_in(e, k);
            let balance = previous - req.amount;
            if balance < 0 {
                read(insufficient(previous))
            } else {
                write(
                    e,
                    sender,
                    now,
                    "withdraw"@,
                    req.reason@,
                    seq![set_effect_of(e, k, balance as i64)],
                    balance_answer(k, balance as i64, previous),
                )
            }
        },
    }
}

pub open spec fn transfer_outcome(
    e: EconomyView,
    sender: Seq<char>,
    now: u64,
    req: request::Transfer,
) -> OutcomeView {
    match resolved_existing(e, opt_id(req.from)) {
        Err(r) => read(r),
        Ok(from) => match resolved_existing(e, opt_id(req.to)) {
            Err(r) => read(r),
            Ok(to) => if req.amount < 0 {
                read(negative_amount())
            } else if from == to {
                read(failure(ErrorCode::InvalidAccount, "an account cannot pay itself"@))
            } else {
                let from_before = balance_in(e, from);
                let to_before = balance_in(e, to);
                let from_after = from_before - req.amount;
                let to_after = to_before + req.amount;
                if from_after < 0 {
                    read(insufficient(from_before))
                } else if to_after > i64::MAX {
                    read(overflowed())
                } else {
                    write(
                        e,
                        sender,
                        now,
                        "transfer"@,
                        req.reason@,
                        seq![
                            set_effect_of(e, from, from_after as i64),
                            set_effect_of(e, to, to_after as i64),
                        ],
                        answer(
                            BodyView::Transfer(
                                Some(balance_view(from, from_after as i64, from_before)),
                                Some(balance_view(to, to_after as i64, to_before)),
                            ),
                        ),
                    )
                }
            },
        },
    }
}

pub open spec fn set_balance_outcome(
    e: EconomyView,
    sender: Seq<char>,
    now: u64,
    req: request::SetBalance,
) -> OutcomeView {
    match resolved_existing(e, opt_id(req.account)) {
        Err(r) => read(r),
        Ok(k) => if req.amount < 0 {
            read(negative_amount())
        } else {
            match owner_refusal(e, sender, k) {
                Some(r) => read(r),
                None => write(
                    e,
                    sender,
                    now,
                    "set"@,
                    req.reason@,
                    seq![set_effect_of(e, k, req.amount)],
                    balance_answer(k, req.amount, balance_in(e, k)),
                ),
            }
        },
    }
}

/// The balance a new account starts with when the request names none.
pub open spec fn default_initial(e: EconomyView, k: IdView) -> i64 {
    if k is Player {
        e.config.starting_balance
    } else {
        0
    }
}

pub open spec fn create_account_outcome(
    e: EconomyView,
    sender: Seq<char>,
    now: u64,
    req: request::CreateAccount,
) -> OutcomeView {
    match resolved(opt_id(req.account)) {
        Err(r) => read(r),
        Ok(k) => if e.accounts.contains_key(k) {
            read(
                failure(
                    ErrorCode::AccountExists,
                    "account "@ + storage_text(k) + " already exists"@,
                ),
            )
        } else {
            let balance = match req.initial_balance {
                Some(b) => b,
                None => default_initial(e, k),
            };
            if balance < 0 {
                read(negative_amount())
            } else {
                write(
                    e,
                    sender,
                    now,
                    "create"@,
                    Seq::empty(),
                    seq![
                        EffectView::Assign {
                            account: k,
                            balance,
                            owner: if k is Player {
                                None
                            } else {
                                Some(sender)
                            },
                        },
                    ],
                    answer(BodyView::Account(AccountStatus { exists: true, balance })),
                )
            }
        },
    }
}

/// What deleting an account comes to: a named account must exist and belong
/// to the sender; a player account always exists, so deleting one that was
/// never materialised succeeds and leaves it at the starting balance.
pub open spec fn delete_account_outcome(
    e: EconomyView,
    sender: Seq<char>,
    now: u64,
    req: request::DeleteAccount,
) -> OutcomeView {
    match resolved_existing(e, opt_id(req.account)) {
        Err(r) => read(r),
        Ok(k) => match owner_refusal(e, sender, k) {
            Some(r) => read(r),
            None => write(
                e,
                sender,
                now,
                "delete"@,
                Seq::empty(),
                seq![EffectView::Remove { account: k }],
                answer(BodyView::Account(AccountStatus { exists: false, balance: 0 })),
            ),
        },
    }
}

/// What a request body comes to.
pub open spec fn handle_outcome(
    e: EconomyView,
    sender: Seq<char>,
    now: u64,
    body: request::Body,
) -> OutcomeView {
    match body {
        request::Body::GetCurrency(_) => currency_outcome(e),
        request::Body::GetBalance(r) => get_balance_outcome(e, r),
        request::Body::HasBalance(r) => has_balance_outcome(e, r),
        request::Body::AccountExists(r) => account_exists_outcome(e, r),
        request::Body::Deposit(r) => deposit_outcome(e, sender, now, r),
        request::Body::Withdraw(r) => withdraw_outcome(e, sender, now, r),
        request::Body::Transfer(r) => transfer_outcome(e, sender, now, r),
        request::Body::SetBalance(r) => set_balance_outcome(e, sender, now, r),
        request::Body::CreateAccount(r) => create_account_outcome(e, sender, now, r),
        request::Body::DeleteAccount(r) => delete_account_outcome(e, sender, now, r),
    }
}

/// The refusal of a request for another major version.
pub open spec fn version_mismatch_text(v: crate::proto::Version) -> Seq<char> {
    "PVault speaks "@ + version_text(spec_version_value()) + ", this message is for "@
        + version_text(v)
}

/// What a request comes to, when `sender` sends it at time `now`.
pub open spec fn plan_outcome(e: EconomyView, sender: Seq<char>, now: u64, req: Request) -> OutcomeView {
    match req.version {
        None => read(failure(ErrorCode::Malformed, "request is missing a version"@)),
        Some(v) => if v.major != spec_version_value().major {
            read(failure(ErrorCode::VersionMismatch, version_mismatch_text(v)))
        } else {
            match req.body {
                None => read(
                    failure(
                        ErrorCode::UnknownRequest,
                        "request has no body, or one this version of PVault does not know"@,
                    ),
                ),
                Some(body) => handle_outcome(e, sender, now, body),
            }
        },
    }
}

/// What a request is answered, and whether it writes an entry, do not depend
/// on the sequence number of the economy; only the entry's own number does.
proof fn lemma_plan_ignores_seq(e: EconomyView, f: EconomyView, sender: Seq<char>, now: u64, req: Request)
    requires
        e.config == f.config,
        e.accounts == f.accounts,
    ensures
        plan_outcome(e, sender, now, req).response == plan_outcome(f, sender, now, req).response,
        (plan_outcome(e, sender, now, req).entry is None) == (plan_outcome(
            f,
            sender,
            now,
            req,
        ).entry is None),
{
}

// ---------------------------------------------------------------------------
// How entries change the economy.

/// The account of a key, if there is one.
pub open spec fn lookup(m: Map<IdView, AccountView>, k: IdView) -> Option<AccountView> {
    if m.contains_key(k) {
        Some(m[k])
    } else {
        None
    }
}

/// What one effect does to the accounts.
pub open spec fn apply_effect(m: Map<IdView, AccountView>, eff: EffectView) -> Map<
    IdView,
    AccountView,
> {
    match eff {
        EffectView::Assign { account, balance, owner } => m.insert(
            account,
            AccountView {
                balance,
                owner: if m.contains_key(account) {
                    m[account].owner
                } else {
                    owner
                },
            },
        ),
        EffectView::Remove { account } => m.remove(account),
    }
}

/// What a list of effects does to the accounts, in order.
pub open spec fn apply_effects(m: Map<IdView, AccountView>, effs: Seq<EffectView>) -> Map<
    IdView,
    AccountView,
>
    decreases effs.len(),
{
    if effs.len() == 0 {
        m
    } else {
        apply_effect(apply_effects(m, effs.drop_last()), effs.last())
    }
}

/// The economy after an entry: its effects applied, and its sequence number
/// the larger of the two.
pub open spec fn applied(e: EconomyView, entry: LogEntryView) -> EconomyView {
    EconomyView {
        config: e.config,
        accounts: apply_effects(e.accounts, entry.effects),
        seq: if entry.seq > e.seq {
            entry.seq
        } else {
            e.seq
        },
    }
}

/// Replaying a journal: each entry newer than the economy is applied, older
/// ones are skipped.
pub open spec fn replay(e: EconomyView, entries: Seq<LogEntryView>) -> EconomyView
    decreases entries.len(),
{
    if entries.len() == 0 {
        e
    } else {
        let before = replay(e, entries.drop_last());
        if entries.last().seq > before.seq {
            applied(before, entries.last())
        } else {
            before
        }
    }
}

/// The economy a snapshot stands for under some settings.
pub open spec fn restored(config: Config, snapshot: &Snapshot) -> EconomyView {
    EconomyView { config, accounts: snapshot.accounts@, seq: snapshot.seq }
}

/// An economy with no accounts and no entries.
pub open spec fn fresh(config: Config) -> EconomyView {
    EconomyView { config, accounts: Map::empty(), seq: 0 }
}

// ---------------------------------------------------------------------------
// Building responses.

/// A response with one balance.
fn balance_response(account: &AccountKey, amount: i64, previous: i64) -> (r: Response)
    ensures
        r@ == balance_answer(account@, amount, previous),
{
    Response::new(Body::Balance(balance(account, amount, previous)))
}

fn balance(account: &AccountKey, amount: i64, previous: i64) -> (r: Balance)
    ensures
        r@ == balance_view(account@, amount, previous),
{
    Balance { account: Some(account.to_proto()), amount, previous }
}

fn not_found(account: &AccountKey) -> (r: Response)
    ensures
        r@ == failure(ErrorCode::AccountNotFound, not_found_text(account@)),
{
    let mut m = String::from_str("no account named ");
    let key = account.storage_key();
    m.append(key.as_str());
    Response::error(ErrorCode::AccountNotFound, m)
}

fn overflow() -> (r: Response)
    ensures
        r@ == overflowed(),
{
    Response::error(
        ErrorCode::Overflow,
        String::from_str("that would push the balance past the maximum"),
    )
}

fn insufficient_funds(balance: i64) -> (r: Response)
    ensures
        r@ == insufficient(balance),
{
    let mut error = crate::proto::Error::new(
        ErrorCode::InsufficientFunds,
        String::from_str("not enough funds"),
    );
    error.balance = balance;
    Response::new(Body::Error(error))
}

fn check_amount(amount: i64) -> (r: Result<(), Response>)
    ensures
        amount >= 0 ==> r is Ok,
        amount < 0 ==> (r matches Err(x) && x@ == negative_amount()),
{
    if amount < 0 {
        return Err(
            Response::error(ErrorCode::InvalidAmount, String::from_str("amounts cannot be negative")),
        );
    }
    Ok(())
}

fn read_only(response: Response) -> (r: Outcome)
    ensures
        r@ == read(response@),
{
    Outcome { response, entry: None }
}

/// A key read by a function agrees with the key or refusal the specification reads.
pub open spec fn resolution_is(r: Result<AccountKey, Response>, s: Result<IdView, ResponseView>) -> bool {
    match s {
        Ok(k) => r matches Ok(key) && key@ == k,
        Err(x) => r matches Err(resp) && resp@ == x,
    }
}

fn resolve(id: Option<&AccountId>) -> (r: Result<AccountKey, Response>)
    ensures
        resolution_is(r, resolved(id_view(id))),
{
    match AccountKey::from_proto(id) {
        Ok(k) => Ok(k),
        Err(error) => {
            let code = match error {
                InvalidAccount::Missing => ErrorCode::Malformed,
                InvalidAccount::BadUuid => ErrorCode::InvalidAccount,
                InvalidAccount::BadName => ErrorCode::InvalidAccount,
            };
            Err(Response::error(code, error.to_string()))
        },
    }
}

/// The account id of a request, borrowed.
fn id_ref(id: &Option<AccountId>) -> (r: Option<&AccountId>)
    ensures
        id_view(r) == opt_id(*id),
{
    match id {
        Some(a) => Some(a),
        None => None,
    }
}

/// A list of one effect.
fn one_effect(e: Effect) -> (r: Vec<Effect>)
    ensures
        crate::journal::effects_view(r@) == seq![e@],
{
    let mut v: Vec<Effect> = Vec::new();
    v.push(e);
    assert(crate::journal::effects_view(v@) =~= seq![e@]);
    v
}

/// Two strings with the same characters.
fn same_text(a: &str, b: &str) -> (r: bool)
    ensures
        r == (a@ == b@),
{
    let x = String::from_str(a);
    let y = String::from_str(b);
    x == y
}

impl Economy {
    /// An economy with no accounts.
    pub fn new(config: Config) -> (r: Economy)
        ensures
            r@ == fresh(config),
    {
        Economy { config, accounts: AccountTable::new(), seq: 0 }
    }

    /// The economy that a snapshot holds, under the given settings.
    pub fn from_snapshot(config: Config, snapshot: Snapshot) -> (r: Economy)
        ensures
            r@ == restored(config, &snapshot),
    {
        Economy { config, accounts: snapshot.accounts, seq: snapshot.seq }
    }

    /// A snapshot of the accounts and the sequence number.
    pub fn snapshot(&self) -> (r: Snapshot)
        ensures
            r.format == SNAPSHOT_FORMAT,
            r.seq == self@.seq,
            r.accounts@ == self@.accounts,
    {
        Snapshot { format: SNAPSHOT_FORMAT, seq: self.seq, accounts: self.accounts.copy() }
    }

    pub fn config(&self) -> (r: &Config)
        ensures
            *r == self@.config,
    {
        &self.config
    }

    /// The sequence number of the last entry applied.
    pub fn seq(&self) -> (r: u64)
        ensures
            r == self@.seq,
    {
        self.seq
    }

    pub fn accounts(&self) -> (r: &AccountTable)
        ensures
            r@ == self@.accounts,
    {
        &self.accounts
    }

    /// Whether the account has been materialised.
    pub fn account_exists(&self, account: &AccountKey) -> (r: bool)
        ensures
            r == self@.accounts.contains_key(account@),
    {
        self.accounts.contains_key(account)
    }

    /// The balance of an account; an unknown player reads as the starting
    /// balance, an unknown name as 0.
    pub fn balance(&self, account: &AccountKey) -> (r: i64)
        ensures
            r == balance_in(self@, account@),
    {
        match self.accounts.get(account) {
            Some(a) => a.balance,
            None => if account.is_player() {
                self.config.starting_balance
            } else {
                0
            },
        }
    }

    /// Applies a journal entry: its effects in order, and its sequence number
    /// if it is newer.
    pub fn apply(&mut self, entry: &LogEntry)
        ensures
            final(self)@ == applied(old(self)@, entry@),
    {
        let ghost start = self.accounts@;
        let mut i: usize = 0;
        while i < entry.effects.len()
            invariant
                i <= entry.effects@.len(),
                self.accounts@ == apply_effects(
                    start,
                    crate::journal::effects_view(entry.effects@).subrange(0, i as int),
                ),
                self.config == old(self).config,
                self.seq == old(self).seq,
                start == old(self)@.accounts,
            decreases entry.effects@.len() - i,
        {
            let ghost effs = crate::journal::effects_view(entry.effects@);
            proof {
                assert(effs.subrange(0, i + 1).drop_last() =~= effs.subrange(0, i as int));
                assert(effs.subrange(0, i + 1).last() == entry.effects@[i as int]@);
            }
            match &entry.effects[i] {
                Effect::Assign { account, balance, owner } => {
                    self.accounts.set_balance(account, *balance, owner);
                },
                Effect::Remove { account } => {
                    self.accounts.remove(account);
                },
            }
            i = i + 1;
        }
        proof {
            let effs = crate::journal::effects_view(entry.effects@);
            assert(effs.subrange(0, i as int) =~= effs);
        }
        if entry.seq > self.seq {
            self.seq = entry.seq;
        }
    }

    /// Why the sender may not change the account, if the account is a named
    /// account of another plugin.
    fn check_owner(&self, sender: &str, account: &AccountKey) -> (r: Result<(), Response>)
        ensures
            match owner_refusal(self@, sender@, account@) {
                None => r is Ok,
                Some(x) => r matches Err(resp) && resp@ == x,
            },
    {
        if same_text(sender, ADMIN_SENDER) {
            return Ok(());
        }
        match self.accounts.get(account) {
            Some(a) => match &a.owner {
                Some(owner) => {
                    if same_text(owner.as_str(), sender) {
                        Ok(())
                    } else {
                        let mut m = String::from_str("account ");
                        let key = account.storage_key();
                        m.append(key.as_str());
                        m.append(" belongs to ");
                        m.append(owner.as_str());
                        Err(Response::error(ErrorCode::PermissionDenied, m))
                    }
                },
                None => Ok(()),
            },
            None => Ok(()),
        }
    }

    fn resolve_existing(&self, id: Option<&AccountId>) -> (r: Result<AccountKey, Response>)
        ensures
            resolution_is(r, resolved_existing(self@, id_view(id))),
    {
        let account = match resolve(id) {
            Ok(k) => k,
            Err(r) => {
                return Err(r);
            },
        };
        if account.is_player() || self.account_exists(&account) {
            Ok(account)
        } else {
            Err(not_found(&account))
        }
    }

    /// The effect that gives an account a balance, keeping its owner.
    fn set_effect(&self, account: &AccountKey, balance: i64) -> (r: Effect)
        ensures
            r@ == set_effect_of(self@, account@, balance),
    {
        let owner = match self.accounts.get(account) {
            Some(existing) => crate::account::copy_text_option(&existing.owner),
            None => None,
        };
        Effect::Assign { account: account.clone(), balance, owner }
    }

    /// An outcome that journals `effects` as the next entry.
    fn mutation(
        &self,
        sender: &str,
        now: u64,
        op: &str,
        reason: &str,
        effects: Vec<Effect>,
        response: Response,
    ) -> (r: Outcome)
        requires
            self@.seq < u64::MAX,
        ensures
            r@ == write(
                self@,
                sender@,
                now,
                op@,
                reason@,
                crate::journal::effects_view(effects@),
                response@,
            ),
    {
        Outcome {
            response,
            entry: Some(
                LogEntry {
                    seq: self.seq + 1,
                    time: now,
                    sender: sender.to_owned(),
                    op: op.to_owned(),
                    reason: reason.to_owned(),
                    effects,
                },
            ),
        }
    }
}

impl Economy {
    fn get_currency(&self) -> (r: Outcome)
        ensures
            r@ == currency_outcome(self@),
    {
        read_only(
            Response::new(
                Body::Currency(
                    CurrencyInfo {
                        name: self.config.currency_name.clone(),
                        plural: self.config.currency_plural.clone(),
                        symbol: self.config.currency_symbol.clone(),
                        fraction_digits: self.config.fraction_digits,
                        starting_balance: self.config.starting_balance,
                    },
                ),
            ),
        )
    }

    fn get_balance(&self, req: &request::GetBalance) -> (r: Outcome)
        ensures
            r@ == get_balance_outcome(self@, *req),
    {
        let account = match self.resolve_existing(id_ref(&req.account)) {
            Ok(k) => k,
            Err(r) => {
                return read_only(r);
            },
        };
        let balance = self.balance(&account);
        read_only(balance_response(&account, balance, balance))
    }

    fn has_balance(&self, req: &request::HasBalance) -> (r: Outcome)
        ensures
            r@ == has_balance_outcome(self@, *req),
    {
        let account = match self.resolve_existing(id_ref(&req.account)) {
            Ok(k) => k,
            Err(r) => {
                return read_only(r);
            },
        };
        if let Err(r) = check_amount(req.amount) {
            return read_only(r);
        }
        let balance = self.balance(&account);
        read_only(
            Response::new(
                Body::HasBalance(HasBalanceResult { sufficient: balance >= req.amount, balance }),
            ),
        )
    }

    fn account_exists_request(&self, req: &request::AccountExists) -> (r: Outcome)
        ensures
            r@ == account_exists_outcome(self@, *req),
    {
        let account = match resolve(id_ref(&req.account)) {
            Ok(k) => k,
            Err(r) => {
                return read_only(r);
            },
        };
        read_only(
            Response::new(
                Body::Account(
                    AccountStatus {
                        exists: self.account_exists(&account),
                        balance: self.balance(&account),
                    },
                ),
            ),
        )
    }

    fn deposit(&self, sender: &str, now: u64, req: &request::Deposit) -> (r: Outcome)
        requires
            self@.seq < u64::MAX || deposit_outcome(self@, sender@, now, *req).entry is None,
        ensures
            r@ == deposit_outcome(self@, sender@, now, *req),
    {
        let account = match self.resolve_existing(id_ref(&req.account)) {
            Ok(k) => k,
            Err(r) => {
                return read_only(r);
            },
        };
        if let Err(r) = check_amount(req.amount) {
            return read_only(r);
        }
        let previous = self.balance(&account);
        let sum = previous as i128 + req.amount as i128;
        if sum > i64::MAX as i128 {
            return read_only(overflow());
        }
        let balance = sum as i64;
        let effects = one_effect(self.set_effect(&account, balance));
        let response = balance_response(&account, balance, previous);
        self.mutation(sender, now, "deposit", req.reason.as_str(), effects, response)
    }

    fn withdraw(&self, sender: &str, now: u64, req: &request::Withdraw) -> (r: Outcome)
        requires
            self@.seq < u64::MAX || withdraw_outcome(self@, sender@, now, *req).entry is None,
        ensures
            r@ == withdraw_outcome(self@, sender@, now, *req),
    {
        let account = match self.resolve_existing(id_ref(&req.account)) {
            Ok(k) => k,
            Err(r) => {
                return read_only(r);
            },
        };
        if let Err(r) = check_amount(req.amount) {
            return read_only(r);
        }
        let previous = self.balance(&account);
        let rest = previous as i128 - req.amount as i128;
        if rest < 0 {
            return read_only(insufficient_funds(previous));
        }
        let balance = rest as i64;
        let effects = one_effect(self.set_effect(&account, balance));
        let response = balance_response(&account, balance, previous);
        self.mutation(sender, now, "withdraw", req.reason.as_str(), effects, response)
    }

    fn transfer(&self, sender: &str, now: u64, req: &request::Transfer) -> (r: Outcome)
        requires
            self@.seq < u64::MAX || transfer_outcome(self@, sender@, now, *req).entry is None,
        ensures
            r@ == transfer_outcome(self@, sender@, now, *req),
    {
        let from = match self.resolve_existing(id_ref(&req.from)) {
            Ok(k) => k,
            Err(r) => {
                return read_only(r);
            },
        };
        let to = match self.resolve_existing(id_ref(&req.to)) {
            Ok(k) => k,
            Err(r) => {
                return read_only(r);
            },
        };
        if let Err(r) = check_amount(req.amount) {
            return read_only(r);
        }
        if from.same(&to) {
            return read_only(
                Response::error(
                    ErrorCode::InvalidAccount,
                    String::from_str("an account cannot pay itself"),
                ),
            );
        }
        let from_before = self.balance(&from);
        let to_before = self.balance(&to);
        let from_rest = from_before as i128 - req.amount as i128;
        if from_rest < 0 {
            return read_only(insufficient_funds(from_before));
        }
        let to_sum = to_before as i128 + req.amount as i128;
        if to_sum > i64::MAX as i128 {
            return read_only(overflow());
        }
        let from_after = from_rest as i64;
        let to_after = to_sum as i64;
        let first = self.set_effect(&from, from_after);
        let second = self.set_effect(&to, to_after);
        let mut effects: Vec<Effect> = Vec::new();
        effects.push(first);
        effects.push(second);
        assert(crate::journal::effects_view(effects@) =~= seq![
            set_effect_of(self@, from@, from_after),
            set_effect_of(self@, to@, to_after),
        ]);
        let response = Response::new(
            Body::Transfer(
                TransferResult {
                    from: Some(balance(&from, from_after, from_before)),
                    to: Some(balance(&to, to_after, to_before)),
                },
            ),
        );
        self.mutation(sender, now, "transfer", req.reason.as_str(), effects, response)
    }

    fn set_balance(&self, sender: &str, now: u64, req: &request::SetBalance) -> (r: Outcome)
        requires
            self@.seq < u64::MAX || set_balance_outcome(self@, sender@, now, *req).entry is None,
        ensures
            r@ == set_balance_outcome(self@, sender@, now, *req),
    {
        let account = match self.resolve_existing(id_ref(&req.account)) {
            Ok(k) => k,
            Err(r) => {
                return read_only(r);
            },
        };
        if let Err(r) = check_amount(req.amount) {
            return read_only(r);
        }
        if let Err(r) = self.check_owner(sender, &account) {
            return read_only(r);
        }
        let previous = self.balance(&account);
        let effects = one_effect(self.set_effect(&account, req.amount));
        let response = balance_response(&account, req.amount, previous);
        self.mutation(sender, now, "set", req.reason.as_str(), effects, response)
    }

    fn create_account(&self, sender: &str, now: u64, req: &request::CreateAccount) -> (r: Outcome)
        requires
            self@.seq < u64::MAX || create_account_outcome(self@, sender@, now, *req).entry is None,
        ensures
            r@ == create_account_outcome(self@, sender@, now, *req),
    {
        let account = match resolve(id_ref(&req.account)) {
            Ok(k) => k,
            Err(r) => {
                return read_only(r);
            },
        };
        if self.account_exists(&account) {
            let mut m = String::from_str("account ");
            let key = account.storage_key();
            m.append(key.as_str());
            m.append(" already exists");
            return read_only(Response::error(ErrorCode::AccountExists, m));
        }
        let balance = match req.initial_balance {
            Some(b) => b,
            None => if account.is_player() {
                self.config.starting_balance
            } else {
                0
            },
        };
        if let Err(r) = check_amount(balance) {
            return read_only(r);
        }
        let owner = if account.is_player() {
            None
        } else {
            Some(sender.to_owned())
        };
        let response = Response::new(Body::Account(AccountStatus { exists: true, balance }));
        let effects = one_effect(Effect::Assign { account, balance, owner });
        proof {
            reveal_strlit("");
            assert(""@ =~= Seq::<char>::empty());
        }
        self.mutation(sender, now, "create", "", effects, response)
    }

    fn delete_account(&self, sender: &str, now: u64, req: &request::DeleteAccount) -> (r: Outcome)
        requires
            self@.seq < u64::MAX || delete_account_outcome(self@, sender@, now, *req).entry is None,
        ensures
            r@ == delete_account_outcome(self@, sender@, now, *req),
    {
        let account = match self.resolve_existing(id_ref(&req.account)) {
            Ok(k) => k,
            Err(r) => {
                return read_only(r);
            },
        };
        if let Err(r) = self.check_owner(sender, &account) {
            return read_only(r);
        }
        let response = Response::new(Body::Account(AccountStatus { exists: false, balance: 0 }));
        let effects = one_effect(Effect::Remove { account });
        proof {
            reveal_strlit("");
            assert(""@ =~= Seq::<char>::empty());
        }
        self.mutation(sender, now, "delete", "", effects, response)
    }

    fn handle(&self, sender: &str, now: u64, body: &request::Body) -> (r: Outcome)
        requires
            self@.seq < u64::MAX || handle_outcome(self@, sender@, now, *body).entry is None,
        ensures
            r@ == handle_outcome(self@, sender@, now, *body),
    {
        match body {
            request::Body::GetCurrency(_) => self.get_currency(),
            request::Body::GetBalance(req) => self.get_balance(req),
            request::Body::HasBalance(req) => self.has_balance(req),
            request::Body::AccountExists(req) => self.account_exists_request(req),
            request::Body::Deposit(req) => self.deposit(sender, now, req),
            request::Body::Withdraw(req) => self.withdraw(sender, now, req),
            request::Body::Transfer(req) => self.transfer(sender, now, req),
            request::Body::SetBalance(req) => self.set_balance(sender, now, req),
            request::Body::CreateAccount(req) => self.create_account(sender, now, req),
            request::Body::DeleteAccount(req) => self.delete_account(sender, now, req),
        }
    }

    /// Works out what a request from `sender` at time `now` comes to: the
    /// response, and the journal entry to write and apply if it changes
    /// anything. The economy itself is not changed.
    pub fn plan(&self, sender: &str, now: u64, request: &Request) -> (r: Outcome)
        requires
            self@.seq < u64::MAX || plan_outcome(self@, sender@, now, *request).entry is None,
        ensures
            r@ == plan_outcome(self@, sender@, now, *request),
    {
        let version = match request.version {
            Some(v) => v,
            None => {
                return read_only(
                    Response::error(
                        ErrorCode::Malformed,
                        String::from_str("request is missing a version"),
                    ),
                );
            },
        };
        let ours = spec_version();
        if !ours.is_compatible_with(&version) {
            let mut m = String::from_str("PVault speaks ");
            let a = ours.to_string();
            m.append(a.as_str());
            m.append(", this message is for ");
            let b = version.to_string();
            m.append(b.as_str());
            return read_only(Response::error(ErrorCode::VersionMismatch, m));
        }
        match &request.body {
            None => read_only(
                Response::error(
                    ErrorCode::UnknownRequest,
                    String::from_str(
                        "request has no body, or one this version of PVault does not know",
                    ),
                ),
            ),
            Some(body) => self.handle(sender, now, body),
        }
    }

    /// Works out what a request comes to, as `plan` does, wherever the journal
    /// has room for what the request writes: once the sequence numbers have
    /// run out, a request that would write an entry gets `None`, and one that
    /// only reads is still answered.
    pub fn try_plan(&self, sender: &str, now: u64, request: &Request) -> (r: Option<Outcome>)
        ensures
            match r {
                Some(o) => o@ == plan_outcome(self@, sender@, now, *request),
                None => self@.seq == u64::MAX && plan_outcome(self@, sender@, now, *request).entry
                    is Some,
            },
    {
        if self.seq < u64::MAX {
            return Some(self.plan(sender, now, request));
        }
        let at_start = Economy { config: self.config.clone(), accounts: self.accounts.copy(), seq: 0 };
        proof {
            lemma_plan_ignores_seq(self@, at_start@, sender@, now, *request);
        }
        let outcome = at_start.plan(sender, now, request);
        if outcome.entry.is_none() {
            Some(outcome)
        } else {
            None
        }
    }
}

} // verus!
