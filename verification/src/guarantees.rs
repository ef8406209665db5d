//! What the economy promises across calls: replaying the journal is harmless
//! and rebuilds the same ledger, a request either fully applies or changes
//! nothing, transfers move money without creating or destroying it, and
//! balances stay out of the red.
use vstd::prelude::*;

use crate::account::AccountView;
use crate::journal::{EffectView, LogEntryView};
use crate::ledger::{
    applied, apply_effect, apply_effects, balance_answer, balance_in, lookup, opt_id, plan_outcome,
    replay, resolved, resolved_existing, restored, EconomyView,
};
use crate::journal::Snapshot;
use crate::proto::response::BodyView;
use crate::commands::{eco_body_spec, Action};
use crate::ledger::ADMIN_SENDER;
use crate::proto::{
    code_number, request, spec_version_value, AccountId, ErrorCode, IdView, Request, SPEC_MAJOR,
};
use vstd::string::*;

verus! {

// ---------------------------------------------------------------------------
// Applying an entry twice.

/// What a list of effects does to one account, whatever it held before.
pub enum Shape {
    /// The account is left as it was.
    Keep,
    /// The account ends up as given, whatever it was.
    Fixed(Option<AccountView>),
    /// The account ends up with the balance, keeping its owner if it existed
    /// and taking the given owner if it did not.
    Assign(i64, Option<Seq<char>>),
}

/// What a shape makes of an account.
pub open spec fn eval_shape(s: Shape, x: Option<AccountView>) -> Option<AccountView> {
    match s {
        Shape::Keep => x,
        Shape::Fixed(c) => c,
        Shape::Assign(b, o) => match x {
            Some(v) => Some(AccountView { balance: b, owner: v.owner }),
            None => Some(AccountView { balance: b, owner: o }),
        },
    }
}

/// What one effect does to the account of `k`.
pub open spec fn step(x: Option<AccountView>, k: IdView, eff: EffectView) -> Option<AccountView> {
    match eff {
        EffectView::Assign { account, balance, owner } => if account == k {
            match x {
                Some(v) => Some(AccountView { balance, owner: v.owner }),
                None => Some(AccountView { balance, owner }),
            }
        } else {
            x
        },
        EffectView::Remove { account } => if account == k {
            None
        } else {
            x
        },
    }
}

/// The shape after one more effect.
pub open spec fn shape_after(s: Shape, k: IdView, eff: EffectView) -> Shape {
    match eff {
        EffectView::Assign { account, balance, owner } => if account == k {
            match s {
                Shape::Keep => Shape::Assign(balance, owner),
                Shape::Fixed(c) => Shape::Fixed(step(c, k, eff)),
                Shape::Assign(_, o) => Shape::Assign(balance, o),
            }
        } else {
            s
        },
        EffectView::Remove { account } => if account == k {
            Shape::Fixed(None)
        } else {
            s
        },
    }
}

/// The shape of a list of effects on the account of `k`.
pub open spec fn shape_of(k: IdView, effs: Seq<EffectView>) -> Shape
    decreases effs.len(),
{
    if effs.len() == 0 {
        Shape::Keep
    } else {
        shape_after(shape_of(k, effs.drop_last()), k, effs.last())
    }
}

proof fn lemma_apply_effect_lookup(m: Map<IdView, AccountView>, eff: EffectView, k: IdView)
    ensures
        lookup(apply_effect(m, eff), k) == step(lookup(m, k), k, eff),
{
}

proof fn lemma_shape_step(s: Shape, k: IdView, eff: EffectView, x: Option<AccountView>)
    ensures
        eval_shape(shape_after(s, k, eff), x) == step(eval_shape(s, x), k, eff),
{
}

/// Each account ends up as the shape of the effects on it makes of it.
pub proof fn lemma_apply_effects_lookup(m: Map<IdView, AccountView>, effs: Seq<EffectView>, k: IdView)
    ensures
        lookup(apply_effects(m, effs), k) == eval_shape(shape_of(k, effs), lookup(m, k)),
    decreases effs.len(),
{
    if effs.len() > 0 {
        lemma_apply_effects_lookup(m, effs.drop_last(), k);
        lemma_apply_effect_lookup(apply_effects(m, effs.drop_last()), effs.last(), k);
        lemma_shape_step(shape_of(k, effs.drop_last()), k, effs.last(), lookup(m, k));
    }
}

/// Maps with the same lookups are the same map.
pub proof fn lemma_lookup_ext(m1: Map<IdView, AccountView>, m2: Map<IdView, AccountView>)
    requires
        forall|k: IdView| #[trigger] lookup(m1, k) == lookup(m2, k),
    ensures
        m1 == m2,
{
    assert forall|k: IdView| #[trigger] m1.contains_key(k) == m2.contains_key(k) by {
        assert(lookup(m1, k) == lookup(m2, k));
    }
    assert forall|k: IdView| m1.contains_key(k) implies #[trigger] m1[k] == m2[k] by {
        assert(lookup(m1, k) == lookup(m2, k));
    }
    assert(m1 =~= m2);
}

/// Law: applying the same journal entry a second time changes nothing.
pub proof fn lemma_apply_twice(e: EconomyView, entry: LogEntryView)
    ensures
        applied(applied(e, entry), entry) == applied(e, entry),
{
    let once = apply_effects(e.accounts, entry.effects);
    let twice = apply_effects(once, entry.effects);
    assert forall|k: IdView| #[trigger] lookup(twice, k) == lookup(once, k) by {
        lemma_apply_effects_lookup(e.accounts, entry.effects, k);
        lemma_apply_effects_lookup(once, entry.effects, k);
    }
    lemma_lookup_ext(twice, once);
}

// ---------------------------------------------------------------------------
// Replaying the journal.

/// The economy after applying every entry in order.
pub open spec fn run(e: EconomyView, entries: Seq<LogEntryView>) -> EconomyView
    decreases entries.len(),
{
    if entries.len() == 0 {
        e
    } else {
        applied(run(e, entries.drop_last()), entries.last())
    }
}

/// A journal whose entries follow each other from `seq`: the first is `seq + 1`,
/// each next one more.
pub open spec fn consecutive(seq: u64, entries: Seq<LogEntryView>) -> bool {
    forall|i: int| 0 <= i < entries.len() ==> (#[trigger] entries[i]).seq == seq + i + 1
}

proof fn lemma_run_seq(e: EconomyView, entries: Seq<LogEntryView>)
    requires
        consecutive(e.seq, entries),
    ensures
        run(e, entries).seq == e.seq + entries.len(),
        run(e, entries).config == e.config,
    decreases entries.len(),
{
    if entries.len() > 0 {
        let t = entries.drop_last();
        assert forall|i: int| 0 <= i < t.len() implies (#[trigger] t[i]).seq == e.seq + i + 1 by {
            assert(t[i] == entries[i]);
        }
        lemma_run_seq(e, t);
        assert(entries.last() == entries[entries.len() - 1]);
    }
}

/// Replaying entries that are all no newer than the economy skips them all.
pub proof fn lemma_replay_old_entries(e: EconomyView, entries: Seq<LogEntryView>)
    requires
        forall|i: int| 0 <= i < entries.len() ==> (#[trigger] entries[i]).seq <= e.seq,
    ensures
        replay(e, entries) == e,
    decreases entries.len(),
{
    if entries.len() > 0 {
        let t = entries.drop_last();
        assert forall|i: int| 0 <= i < t.len() implies (#[trigger] t[i]).seq <= e.seq by {
            assert(t[i] == entries[i]);
        }
        lemma_replay_old_entries(e, t);
        assert(entries.last() == entries[entries.len() - 1]);
    }
}

/// Law: after a crash, replaying the whole journal on top of a snapshot taken
/// after any prefix of it rebuilds the economy that applied every entry: the
/// entries the snapshot already holds are skipped, the rest applied in order.
pub proof fn lemma_recover_from_snapshot(e: EconomyView, entries: Seq<LogEntryView>, k: int)
    requires
        0 <= k <= entries.len(),
        consecutive(e.seq, entries),
    ensures
        replay(run(e, entries.subrange(0, k)), entries) == run(e, entries),
    decreases entries.len(),
{
    let prefix = entries.subrange(0, k);
    assert forall|i: int| 0 <= i < prefix.len() implies (#[trigger] prefix[i]).seq == e.seq + i + 1 by {
        assert(prefix[i] == entries[i]);
    }
    lemma_run_seq(e, prefix);
    if k == entries.len() {
        assert(prefix =~= entries);
        assert forall|i: int| 0 <= i < entries.len() implies (#[trigger] entries[i]).seq <= run(
            e,
            prefix,
        ).seq by {}
        lemma_replay_old_entries(run(e, prefix), entries);
    } else {
        let t = entries.drop_last();
        assert forall|i: int| 0 <= i < t.len() implies (#[trigger] t[i]).seq == e.seq + i + 1 by {
            assert(t[i] == entries[i]);
        }
        assert(t.subrange(0, k) =~= prefix);
        lemma_recover_from_snapshot(e, t, k);
        lemma_run_seq(e, t);
        assert(entries.last() == entries[entries.len() - 1]);
    }
}

/// Replaying never moves the sequence number back, and afterwards it is at
/// least that of every entry replayed.
pub proof fn lemma_replay_seq(e: EconomyView, entries: Seq<LogEntryView>)
    ensures
        replay(e, entries).seq >= e.seq,
        forall|i: int| 0 <= i < entries.len() ==> (#[trigger] entries[i]).seq <= replay(e, entries).seq,
    decreases entries.len(),
{
    if entries.len() > 0 {
        let t = entries.drop_last();
        lemma_replay_seq(e, t);
        assert forall|i: int| 0 <= i < entries.len() implies (#[trigger] entries[i]).seq <= replay(
            e,
            entries,
        ).seq by {
            if i < t.len() {
                assert(t[i] == entries[i]);
            }
        }
    }
}

/// Law: replaying the journal again on an economy that was already recovered
/// from it changes nothing.
pub proof fn lemma_replay_twice(e: EconomyView, entries: Seq<LogEntryView>)
    ensures
        replay(replay(e, entries), entries) == replay(e, entries),
{
    lemma_replay_seq(e, entries);
    lemma_replay_old_entries(replay(e, entries), entries);
}

// ---------------------------------------------------------------------------
// Planning requests.

/// A request in the major version of the protocol that this library speaks.
pub open spec fn current(req: Request) -> bool {
    req.version matches Some(v) && v.major == SPEC_MAJOR
}

/// The entry a request comes to, if any.
pub open spec fn planned_entry(e: EconomyView, sender: Seq<char>, now: u64, req: Request) -> Option<
    LogEntryView,
> {
    plan_outcome(e, sender, now, req).entry
}

/// Law: the entry a request comes to is the next in the journal, and applying
/// it moves the economy to its sequence number.
pub proof fn lemma_planned_entry_is_next(e: EconomyView, sender: Seq<char>, now: u64, req: Request)
    requires
        e.seq < u64::MAX,
        planned_entry(e, sender, now, req) is Some,
    ensures
        planned_entry(e, sender, now, req)->0.seq == e.seq + 1,
        applied(e, planned_entry(e, sender, now, req)->0).seq == e.seq + 1,
        applied(e, planned_entry(e, sender, now, req)->0).config == e.config,
{
}

/// Law: a refused request comes to no journal entry, so it changes nothing.
pub proof fn lemma_refusals_change_nothing(e: EconomyView, sender: Seq<char>, now: u64, req: Request)
    requires
        plan_outcome(e, sender, now, req).response.body matches Some(BodyView::Error(_)),
    ensures
        planned_entry(e, sender, now, req) is None,
{
}

/// Law: asking for the currency, a balance, whether a balance suffices, or
/// whether an account exists never changes anything.
pub proof fn lemma_queries_change_nothing(e: EconomyView, sender: Seq<char>, now: u64, req: Request)
    requires
        req.body matches Some(b) && (b is GetCurrency || b is GetBalance || b is HasBalance
            || b is AccountExists),
    ensures
        planned_entry(e, sender, now, req) is None,
{
}

/// Law: only the major version decides whether a request is served; a request
/// of any minor or patch version of that major is answered as one of ours.
pub proof fn lemma_minor_versions_are_served(
    e: EconomyView,
    sender: Seq<char>,
    now: u64,
    v: crate::proto::Version,
    body: Option<request::Body>,
)
    requires
        v.major == SPEC_MAJOR,
    ensures
        plan_outcome(e, sender, now, Request { version: Some(v), body })
            == plan_outcome(e, sender, now, Request { version: Some(spec_version_value()), body }),
{
}

/// Law: a successful transfer is between two different accounts, of an amount
/// that is not negative and that the payer can cover; it takes the amount from
/// one account and gives it to the other, so their sum is unchanged, and
/// touches no other account.
pub proof fn lemma_transfer_moves_money(
    e: EconomyView,
    sender: Seq<char>,
    now: u64,
    req: Request,
    t: request::Transfer,
    from: IdView,
    to: IdView,
)
    requires
        current(req),
        req.body == Some(request::Body::Transfer(t)),
        resolved_existing(e, opt_id(t.from)) == Ok::<IdView, crate::proto::ResponseView>(from),
        resolved_existing(e, opt_id(t.to)) == Ok::<IdView, crate::proto::ResponseView>(to),
        planned_entry(e, sender, now, req) is Some,
    ensures
        ({
            let after = applied(e, planned_entry(e, sender, now, req)->0);
            &&& from != to
            &&& 0 <= t.amount <= balance_in(e, from)
            &&& balance_in(after, from) == balance_in(e, from) - t.amount
            &&& balance_in(after, to) == balance_in(e, to) + t.amount
            &&& balance_in(after, from) + balance_in(after, to) == balance_in(e, from) + balance_in(e, to)
            &&& forall|k: IdView| k != from && k != to ==> #[trigger] lookup(after.accounts, k)
                == lookup(e.accounts, k)
        }),
{
    let en = planned_entry(e, sender, now, req)->0;
    let effs = en.effects;
    let m1 = apply_effect(e.accounts, effs[0]);
    let m2 = apply_effect(m1, effs[1]);
    assert(effs.drop_last().drop_last() =~= Seq::<EffectView>::empty());
    assert(effs.drop_last().last() == effs[0]);
    assert(apply_effects(e.accounts, effs.drop_last().drop_last()) == e.accounts);
    assert(apply_effects(e.accounts, effs.drop_last()) == m1);
    assert(apply_effects(e.accounts, effs) == m2);
    assert forall|j: IdView| j != from && j != to implies #[trigger] lookup(m2, j) == lookup(
        e.accounts,
        j,
    ) by {
        lemma_apply_effect_lookup(e.accounts, effs[0], j);
        lemma_apply_effect_lookup(m1, effs[1], j);
    }
    lemma_apply_effect_lookup(e.accounts, effs[0], from);
    lemma_apply_effect_lookup(m1, effs[1], from);
    lemma_apply_effect_lookup(e.accounts, effs[0], to);
    lemma_apply_effect_lookup(m1, effs[1], to);
}

/// Law: after a successful deposit the account holds what it held plus the
/// amount, which is the balance the response reports; nothing else changes.
pub proof fn lemma_deposit_reads_back(
    e: EconomyView,
    sender: Seq<char>,
    now: u64,
    req: Request,
    d: request::Deposit,
    k: IdView,
)
    requires
        current(req),
        req.body == Some(request::Body::Deposit(d)),
        resolved_existing(e, opt_id(d.account)) == Ok::<IdView, crate::proto::ResponseView>(k),
        planned_entry(e, sender, now, req) is Some,
    ensures
        ({
            let after = applied(e, planned_entry(e, sender, now, req)->0);
            &&& balance_in(after, k) == balance_in(e, k) + d.amount
            &&& after.accounts.contains_key(k)
            &&& plan_outcome(e, sender, now, req).response == balance_answer(
                k,
                balance_in(after, k),
                balance_in(e, k),
            )
            &&& forall|j: IdView| j != k ==> #[trigger] lookup(after.accounts, j) == lookup(
                e.accounts,
                j,
            )
        }),
{
    let en = planned_entry(e, sender, now, req)->0;
    let effs = en.effects;
    assert(effs.drop_last() =~= Seq::<EffectView>::empty());
    assert(apply_effects(e.accounts, effs.drop_last()) == e.accounts);
    assert(apply_effects(e.accounts, effs) == apply_effect(e.accounts, effs.last()));
    assert forall|j: IdView| j != k implies #[trigger] lookup(apply_effect(e.accounts, effs.last()), j)
        == lookup(e.accounts, j) by {
        lemma_apply_effect_lookup(e.accounts, effs.last(), j);
    }
}

/// Law: the same deposit sent twice deposits twice, for no key makes a
/// request idempotent; the second deposit is the next entry of the journal
/// and reports the balance the first one left as its previous balance.
pub proof fn lemma_deposit_twice_deposits_twice(
    e: EconomyView,
    sender: Seq<char>,
    now: u64,
    req: Request,
    d: request::Deposit,
    k: IdView,
)
    requires
        current(req),
        req.body == Some(request::Body::Deposit(d)),
        resolved_existing(e, opt_id(d.account)) == Ok::<IdView, crate::proto::ResponseView>(k),
        d.amount >= 0,
        balance_in(e, k) + 2 * d.amount <= i64::MAX,
        e.seq + 2 <= u64::MAX,
    ensures
        ({
            let first = planned_entry(e, sender, now, req);
            let between = applied(e, first->0);
            let second = planned_entry(between, sender, now, req);
            &&& first is Some
            &&& second is Some
            &&& second->0.seq == first->0.seq + 1
            &&& balance_in(applied(between, second->0), k) == balance_in(e, k) + 2 * d.amount
            &&& plan_outcome(between, sender, now, req).response == balance_answer(
                k,
                (balance_in(e, k) + 2 * d.amount) as i64,
                (balance_in(e, k) + d.amount) as i64,
            )
        }),
{
    assert(planned_entry(e, sender, now, req) is Some);
    lemma_deposit_reads_back(e, sender, now, req, d, k);
    lemma_planned_entry_is_next(e, sender, now, req);
    let between = applied(e, planned_entry(e, sender, now, req)->0);
    assert(resolved_existing(between, opt_id(d.account)) == Ok::<
        IdView,
        crate::proto::ResponseView,
    >(k));
    assert(planned_entry(between, sender, now, req) is Some);
    lemma_deposit_reads_back(between, sender, now, req, d, k);
    lemma_planned_entry_is_next(between, sender, now, req);
}

/// Law: after a successful withdrawal the account holds what it held less the
/// amount, which is the balance the response reports; nothing else changes.
pub proof fn lemma_withdraw_reads_back(
    e: EconomyView,
    sender: Seq<char>,
    now: u64,
    req: Request,
    w: request::Withdraw,
    k: IdView,
)
    requires
        current(req),
        req.body == Some(request::Body::Withdraw(w)),
        resolved_existing(e, opt_id(w.account)) == Ok::<IdView, crate::proto::ResponseView>(k),
        planned_entry(e, sender, now, req) is Some,
    ensures
        ({
            let after = applied(e, planned_entry(e, sender, now, req)->0);
            &&& balance_in(after, k) == balance_in(e, k) - w.amount
            &&& balance_in(after, k) >= 0
            &&& plan_outcome(e, sender, now, req).response == balance_answer(
                k,
                balance_in(after, k),
                balance_in(e, k),
            )
            &&& forall|j: IdView| j != k ==> #[trigger] lookup(after.accounts, j) == lookup(
                e.accounts,
                j,
            )
        }),
{
    let en = planned_entry(e, sender, now, req)->0;
    let effs = en.effects;
    assert(effs.drop_last() =~= Seq::<EffectView>::empty());
    assert(apply_effects(e.accounts, effs.drop_last()) == e.accounts);
    assert(apply_effects(e.accounts, effs) == apply_effect(e.accounts, effs.last()));
    assert forall|j: IdView| j != k implies #[trigger] lookup(apply_effect(e.accounts, effs.last()), j)
        == lookup(e.accounts, j) by {
        lemma_apply_effect_lookup(e.accounts, effs.last(), j);
    }
}

/// Law: after a successful set the account holds exactly the amount asked for.
pub proof fn lemma_set_balance_reads_back(
    e: EconomyView,
    sender: Seq<char>,
    now: u64,
    req: Request,
    b: request::SetBalance,
    k: IdView,
)
    requires
        current(req),
        req.body == Some(request::Body::SetBalance(b)),
        resolved_existing(e, opt_id(b.account)) == Ok::<IdView, crate::proto::ResponseView>(k),
        planned_entry(e, sender, now, req) is Some,
    ensures
        ({
            let after = applied(e, planned_entry(e, sender, now, req)->0);
            &&& balance_in(after, k) == b.amount
            &&& forall|j: IdView| j != k ==> #[trigger] lookup(after.accounts, j) == lookup(
                e.accounts,
                j,
            )
        }),
{
    let en = planned_entry(e, sender, now, req)->0;
    let effs = en.effects;
    assert(effs.drop_last() =~= Seq::<EffectView>::empty());
    assert(apply_effects(e.accounts, effs.drop_last()) == e.accounts);
    assert(apply_effects(e.accounts, effs) == apply_effect(e.accounts, effs.last()));
    assert forall|j: IdView| j != k implies #[trigger] lookup(apply_effect(e.accounts, effs.last()), j)
        == lookup(e.accounts, j) by {
        lemma_apply_effect_lookup(e.accounts, effs.last(), j);
    }
}

/// Law: an account that has not been materialised is not created by asking
/// for its balance; a player reads the starting balance, as both the balance
/// and the previous balance.
pub proof fn lemma_unknown_players_read_starting_balance(
    e: EconomyView,
    sender: Seq<char>,
    now: u64,
    req: Request,
    g: request::GetBalance,
    k: IdView,
)
    requires
        current(req),
        req.body == Some(request::Body::GetBalance(g)),
        resolved(opt_id(g.account)) == Ok::<IdView, crate::proto::ResponseView>(k),
        k is Player,
        !e.accounts.contains_key(k),
    ensures
        planned_entry(e, sender, now, req) is None,
        plan_outcome(e, sender, now, req).response == balance_answer(
            k,
            e.config.starting_balance,
            e.config.starting_balance,
        ),
{
}

/// Law: once deleted, an account no longer exists; a deleted player reads the
/// starting balance again.
pub proof fn lemma_deleted_accounts_are_gone(
    e: EconomyView,
    sender: Seq<char>,
    now: u64,
    req: Request,
    d: request::DeleteAccount,
    k: IdView,
)
    requires
        current(req),
        req.body == Some(request::Body::DeleteAccount(d)),
        resolved(opt_id(d.account)) == Ok::<IdView, crate::proto::ResponseView>(k),
        planned_entry(e, sender, now, req) is Some,
    ensures
        ({
            let after = applied(e, planned_entry(e, sender, now, req)->0);
            &&& !after.accounts.contains_key(k)
            &&& k is Player ==> balance_in(after, k) == e.config.starting_balance
        }),
{
    let en = planned_entry(e, sender, now, req)->0;
    let effs = en.effects;
    assert(effs.drop_last() =~= Seq::<EffectView>::empty());
    assert(apply_effects(e.accounts, effs.drop_last()) == e.accounts);
    assert(apply_effects(e.accounts, effs) == apply_effect(e.accounts, effs.last()));
    assert forall|j: IdView| j != k implies #[trigger] lookup(apply_effect(e.accounts, effs.last()), j)
        == lookup(e.accounts, j) by {
        lemma_apply_effect_lookup(e.accounts, effs.last(), j);
    }
}

/// Law: a player account always exists, so deleting one that was never
/// materialised is no error: it is answered as a deleted account, and the
/// player still reads the starting balance afterwards.
pub proof fn lemma_deleting_an_unknown_player_succeeds(
    e: EconomyView,
    sender: Seq<char>,
    now: u64,
    req: Request,
    d: request::DeleteAccount,
    k: IdView,
)
    requires
        current(req),
        req.body == Some(request::Body::DeleteAccount(d)),
        resolved(opt_id(d.account)) == Ok::<IdView, crate::proto::ResponseView>(k),
        k is Player,
        !e.accounts.contains_key(k),
    ensures
        planned_entry(e, sender, now, req) is Some,
        plan_outcome(e, sender, now, req).response == crate::proto::answer(
            BodyView::Account(crate::proto::AccountStatus { exists: false, balance: 0 }),
        ),
        balance_in(applied(e, planned_entry(e, sender, now, req)->0), k)
            == e.config.starting_balance,
        forall|j: IdView| #[trigger] lookup(applied(e, planned_entry(e, sender, now, req)->0).accounts, j)
            == lookup(e.accounts, j),
{
    let en = planned_entry(e, sender, now, req)->0;
    let effs = en.effects;
    assert(effs.drop_last() =~= Seq::<EffectView>::empty());
    assert(apply_effects(e.accounts, effs.drop_last()) == e.accounts);
    assert(apply_effects(e.accounts, effs) == apply_effect(e.accounts, effs.last()));
    assert forall|j: IdView| #[trigger] lookup(apply_effect(e.accounts, effs.last()), j)
        == lookup(e.accounts, j) by {
        lemma_apply_effect_lookup(e.accounts, effs.last(), j);
    }
}

/// Law: an error answer carries a balance only when it refuses for
/// insufficient funds; every other error carries 0.
pub proof fn lemma_error_balance_only_for_insufficient_funds(
    e: EconomyView,
    sender: Seq<char>,
    now: u64,
    req: Request,
)
    requires
        plan_outcome(e, sender, now, req).response.body matches Some(BodyView::Error(err)) && err.code
            != crate::proto::code_number(crate::proto::ErrorCode::InsufficientFunds),
    ensures
        plan_outcome(e, sender, now, req).response.body matches Some(BodyView::Error(err))
            && err.balance == 0,
{
}

/// Law: a named account that belongs to a plugin can be set or deleted only
/// by that plugin or by PVault itself; anyone else's request changes nothing.
pub proof fn lemma_only_owners_set_or_delete(
    e: EconomyView,
    sender: Seq<char>,
    now: u64,
    req: Request,
    k: IdView,
)
    requires
        req.body matches Some(b) && ((b matches request::Body::SetBalance(x) && resolved(
            opt_id(x.account),
        ) == Ok::<IdView, crate::proto::ResponseView>(k)) || (b matches request::Body::DeleteAccount(
            x,
        ) && resolved(opt_id(x.account)) == Ok::<IdView, crate::proto::ResponseView>(k))),
        e.accounts.contains_key(k),
        e.accounts[k].owner matches Some(o) && o != sender,
        sender != crate::ledger::ADMIN_SENDER@,
    ensures
        planned_entry(e, sender, now, req) is None,
{
}

/// Law: named accounts do not spring into existence: no request but
/// `CreateAccount` adds one.
pub proof fn lemma_names_need_creating(e: EconomyView, sender: Seq<char>, now: u64, req: Request)
    requires
        planned_entry(e, sender, now, req) is Some,
        !(req.body matches Some(request::Body::CreateAccount(_))),
    ensures
        forall|k: IdView|
            k is Named && #[trigger] applied(e, planned_entry(e, sender, now, req)->0).accounts.contains_key(k)
                ==> e.accounts.contains_key(k),
{
    let en = planned_entry(e, sender, now, req)->0;
    let effs = en.effects;
    assert forall|k: IdView|
        k is Named && #[trigger] applied(e, en).accounts.contains_key(k) implies e.accounts.contains_key(
        k,
    ) by {
        if effs.len() == 1 {
            assert(effs.drop_last() =~= Seq::<EffectView>::empty());
            assert(apply_effects(e.accounts, effs.drop_last()) == e.accounts);
            lemma_apply_effect_lookup(e.accounts, effs.last(), k);
        } else {
            let m1 = apply_effect(e.accounts, effs[0]);
            assert(effs.drop_last().drop_last() =~= Seq::<EffectView>::empty());
            assert(effs.drop_last().last() == effs[0]);
            assert(apply_effects(e.accounts, effs.drop_last().drop_last()) == e.accounts);
            assert(apply_effects(e.accounts, effs.drop_last()) == m1);
            lemma_apply_effect_lookup(e.accounts, effs[0], k);
            lemma_apply_effect_lookup(m1, effs[1], k);
        }
    }
}

/// No account is in the red, and players start out of it.
pub open spec fn solvent(e: EconomyView) -> bool {
    &&& e.config.starting_balance >= 0
    &&& forall|k: IdView| #[trigger] e.accounts.contains_key(k) ==> e.accounts[k].balance >= 0
}

/// Every effect that sets a balance sets one that is not negative.
pub open spec fn effects_solvent(effs: Seq<EffectView>) -> bool {
    forall|i: int|
        0 <= i < effs.len() ==> (#[trigger] effs[i] matches EffectView::Assign { balance, .. } ==> balance >= 0)
}

proof fn lemma_apply_solvent(m: Map<IdView, AccountView>, effs: Seq<EffectView>)
    requires
        forall|k: IdView| #[trigger] m.contains_key(k) ==> m[k].balance >= 0,
        effects_solvent(effs),
    ensures
        forall|k: IdView| #[trigger] apply_effects(m, effs).contains_key(k) ==> apply_effects(
            m,
            effs,
        )[k].balance >= 0,
    decreases effs.len(),
{
    if effs.len() > 0 {
        let t = effs.drop_last();
        assert forall|i: int|
            0 <= i < t.len() implies (#[trigger] t[i] matches EffectView::Assign { balance, .. }
            ==> balance >= 0) by {
            assert(t[i] == effs[i]);
        }
        lemma_apply_solvent(m, t);
        assert(effs.last() == effs[effs.len() - 1]);
    }
}

/// Law: balances never go below zero: applying what any request comes to
/// keeps a solvent economy solvent.
pub proof fn lemma_requests_keep_solvency(e: EconomyView, sender: Seq<char>, now: u64, req: Request)
    requires
        solvent(e),
        planned_entry(e, sender, now, req) is Some,
    ensures
        solvent(applied(e, planned_entry(e, sender, now, req)->0)),
{
    let en = planned_entry(e, sender, now, req)->0;
    assert forall|k: IdView| balance_in(e, k) >= 0 by {}
    assert(effects_solvent(en.effects));
    lemma_apply_solvent(e.accounts, en.effects);
}

/// Law: an economy restored from a snapshot of itself is itself.
pub proof fn lemma_snapshot_round_trip(e: EconomyView, snapshot: &Snapshot)
    requires
        snapshot.seq == e.seq,
        snapshot.accounts@ == e.accounts,
    ensures
        restored(e.config, snapshot) == e,
{
}

// ---------------------------------------------------------------------------
// What each request does, stated over balances and error codes.

/// The body a response carries that reports one balance.
pub open spec fn reports_balance(r: crate::proto::ResponseView, k: IdView, amount: int, previous: int) -> bool {
    r.body matches Some(BodyView::Balance(b)) && b.account == Some(Some(k)) && b.amount == amount
        && b.previous == previous
}

/// The body a response carries that refuses with an error code.
pub open spec fn refuses_with(r: crate::proto::ResponseView, code: ErrorCode) -> bool {
    r.body matches Some(BodyView::Error(err)) && err.code == code_number(code)
}

/// Law: a withdrawal that the account's balance covers always goes through:
/// it is journalled, leaves the balance less the amount (zero when it takes
/// everything), and reports the balances before and after.
pub proof fn lemma_withdrawals_within_the_balance_succeed(
    e: EconomyView,
    sender: Seq<char>,
    now: u64,
    req: Request,
    w: request::Withdraw,
    k: IdView,
)
    requires
        current(req),
        req.body == Some(request::Body::Withdraw(w)),
        resolved_existing(e, opt_id(w.account)) == Ok::<IdView, crate::proto::ResponseView>(k),
        0 <= w.amount <= balance_in(e, k),
    ensures
        planned_entry(e, sender, now, req) is Some,
        reports_balance(
            plan_outcome(e, sender, now, req).response,
            k,
            balance_in(e, k) - w.amount,
            balance_in(e, k) as int,
        ),
        balance_in(applied(e, planned_entry(e, sender, now, req)->0), k) == balance_in(e, k)
            - w.amount,
{
    lemma_withdraw_reads_back(e, sender, now, req, w, k);
}

/// Law: a withdrawal is refused for insufficient funds exactly when it asks
/// for more than the balance; the refusal reports the balance and changes
/// nothing.
pub proof fn lemma_withdrawals_beyond_the_balance_are_refused(
    e: EconomyView,
    sender: Seq<char>,
    now: u64,
    req: Request,
    w: request::Withdraw,
    k: IdView,
)
    requires
        current(req),
        req.body == Some(request::Body::Withdraw(w)),
        resolved_existing(e, opt_id(w.account)) == Ok::<IdView, crate::proto::ResponseView>(k),
        w.amount >= 0,
    ensures
        refuses_with(plan_outcome(e, sender, now, req).response, ErrorCode::InsufficientFunds)
            <==> w.amount > balance_in(e, k),
        w.amount > balance_in(e, k) ==> {
            &&& planned_entry(e, sender, now, req) is None
            &&& plan_outcome(e, sender, now, req).response.body matches Some(BodyView::Error(err))
                && err.balance == balance_in(e, k)
        },
{
}

/// Law: asking for a balance reports the account's balance, before and after
/// alike: what is stored for an account that exists, the starting balance for
/// a player who has none; it changes nothing.
pub proof fn lemma_balance_queries_report_the_balance(
    e: EconomyView,
    sender: Seq<char>,
    now: u64,
    req: Request,
    g: request::GetBalance,
    k: IdView,
)
    requires
        current(req),
        req.body == Some(request::Body::GetBalance(g)),
        resolved_existing(e, opt_id(g.account)) == Ok::<IdView, crate::proto::ResponseView>(k),
    ensures
        planned_entry(e, sender, now, req) is None,
        reports_balance(
            plan_outcome(e, sender, now, req).response,
            k,
            balance_in(e, k) as int,
            balance_in(e, k) as int,
        ),
        e.accounts.contains_key(k) ==> reports_balance(
            plan_outcome(e, sender, now, req).response,
            k,
            e.accounts[k].balance as int,
            e.accounts[k].balance as int,
        ),
        !e.accounts.contains_key(k) && k is Player ==> reports_balance(
            plan_outcome(e, sender, now, req).response,
            k,
            e.config.starting_balance as int,
            e.config.starting_balance as int,
        ),
{
}

/// Law: after a deposit goes through, asking for the same account's balance
/// reports the balance the deposit reported.
pub proof fn lemma_balance_after_deposit(
    e: EconomyView,
    sender: Seq<char>,
    now: u64,
    req: Request,
    d: request::Deposit,
    query: Request,
    g: request::GetBalance,
    k: IdView,
    asker: Seq<char>,
    later: u64,
)
    requires
        current(req),
        req.body == Some(request::Body::Deposit(d)),
        current(query),
        query.body == Some(request::Body::GetBalance(g)),
        opt_id(g.account) == opt_id(d.account),
        resolved_existing(e, opt_id(d.account)) == Ok::<IdView, crate::proto::ResponseView>(k),
        planned_entry(e, sender, now, req) is Some,
    ensures
        reports_balance(
            plan_outcome(e, sender, now, req).response,
            k,
            balance_in(e, k) + d.amount,
            balance_in(e, k) as int,
        ),
        reports_balance(
            plan_outcome(applied(e, planned_entry(e, sender, now, req)->0), asker, later, query).response,
            k,
            balance_in(e, k) + d.amount,
            balance_in(e, k) + d.amount,
        ),
{
    lemma_deposit_reads_back(e, sender, now, req, d, k);
    let after = applied(e, planned_entry(e, sender, now, req)->0);
    assert(resolved_existing(after, opt_id(g.account)) == Ok::<IdView, crate::proto::ResponseView>(k));
    lemma_balance_queries_report_the_balance(after, asker, later, query, g, k);
}

/// Law: an account that exists cannot be created again, player or named: the
/// request is refused with ACCOUNT_EXISTS and nothing is journalled.
pub proof fn lemma_existing_accounts_cannot_be_created(
    e: EconomyView,
    sender: Seq<char>,
    now: u64,
    req: Request,
    c: request::CreateAccount,
    k: IdView,
)
    requires
        current(req),
        req.body == Some(request::Body::CreateAccount(c)),
        resolved(opt_id(c.account)) == Ok::<IdView, crate::proto::ResponseView>(k),
        e.accounts.contains_key(k),
    ensures
        planned_entry(e, sender, now, req) is None,
        refuses_with(plan_outcome(e, sender, now, req).response, ErrorCode::AccountExists),
{
}

/// Law: creating an account never touches an account that already exists.
pub proof fn lemma_creating_keeps_existing_accounts(
    e: EconomyView,
    sender: Seq<char>,
    now: u64,
    req: Request,
    c: request::CreateAccount,
    j: IdView,
)
    requires
        req.body == Some(request::Body::CreateAccount(c)),
        planned_entry(e, sender, now, req) is Some,
        e.accounts.contains_key(j),
    ensures
        lookup(applied(e, planned_entry(e, sender, now, req)->0).accounts, j) == lookup(e.accounts, j),
        balance_in(applied(e, planned_entry(e, sender, now, req)->0), j) == balance_in(e, j),
{
    let en = planned_entry(e, sender, now, req)->0;
    let effs = en.effects;
    assert(effs.drop_last() =~= Seq::<EffectView>::empty());
    assert(apply_effects(e.accounts, effs.drop_last()) == e.accounts);
    assert(apply_effects(e.accounts, effs) == apply_effect(e.accounts, effs.last()));
    lemma_apply_effect_lookup(e.accounts, effs.last(), j);
}

/// Law: what an `/eco` action asks of the economy, served for PVault itself,
/// does what the action says: `set` and `reset` leave exactly the amount,
/// `give` adds it, `take` removes it when the balance covers it and is
/// refused otherwise.
pub proof fn lemma_eco_actions_do_what_they_say(
    e: EconomyView,
    now: u64,
    req: Request,
    action: Action,
    id: AccountId,
    amount: i64,
    reason: String,
    k: IdView,
)
    requires
        current(req),
        req.body == Some(eco_body_spec(action, id, amount, reason)),
        resolved_existing(e, id@) == Ok::<IdView, crate::proto::ResponseView>(k),
        amount >= 0,
    ensures
        ({
            let entry = planned_entry(e, ADMIN_SENDER@, now, req);
            let after = balance_in(applied(e, entry->0), k);
            &&& (action is SetTo || action is Reset) ==> entry is Some && after == amount
            &&& action is Give && balance_in(e, k) + amount <= i64::MAX ==> entry is Some && after
                == balance_in(e, k) + amount
            &&& action is Take && amount <= balance_in(e, k) ==> entry is Some && after == balance_in(
                e,
                k,
            ) - amount
            &&& action is Take && amount > balance_in(e, k) ==> entry is None && refuses_with(
                plan_outcome(e, ADMIN_SENDER@, now, req).response,
                ErrorCode::InsufficientFunds,
            )
        }),
{
    assert(opt_id(Some(id)) == id@);
    match action {
        Action::Give => {
            if balance_in(e, k) + amount <= i64::MAX {
                let d = request::Deposit { account: Some(id), amount, reason };
                assert(planned_entry(e, ADMIN_SENDER@, now, req) is Some);
                lemma_deposit_reads_back(e, ADMIN_SENDER@, now, req, d, k);
            }
        },
        Action::Take => {
            let w = request::Withdraw { account: Some(id), amount, reason };
            if amount <= balance_in(e, k) {
                lemma_withdrawals_within_the_balance_succeed(e, ADMIN_SENDER@, now, req, w, k);
            }
        },
        Action::SetTo | Action::Reset => {
            let b = request::SetBalance { account: Some(id), amount, reason };
            assert(planned_entry(e, ADMIN_SENDER@, now, req) is Some);
            lemma_set_balance_reads_back(e, ADMIN_SENDER@, now, req, b, k);
        },
    }
}

/// Whether `sender` may set or delete the account: PVault itself may always,
/// anyone may for an account no one else owns.
pub open spec fn may_manage(e: EconomyView, sender: Seq<char>, k: IdView) -> bool {
    sender == ADMIN_SENDER@ || !e.accounts.contains_key(k) || e.accounts[k].owner is None
        || e.accounts[k].owner->0 == sender
}

/// Law: a deposit goes through exactly when its amount is not negative and
/// the balance stays within `i64::MAX`; it then adds the amount and reports
/// both balances. A negative amount is refused with INVALID_AMOUNT, one that
/// would pass the maximum with OVERFLOW.
pub proof fn lemma_deposits_add_the_amount(
    e: EconomyView,
    sender: Seq<char>,
    now: u64,
    req: Request,
    d: request::Deposit,
    k: IdView,
)
    requires
        current(req),
        req.body == Some(request::Body::Deposit(d)),
        resolved_existing(e, opt_id(d.account)) == Ok::<IdView, crate::proto::ResponseView>(k),
    ensures
        (planned_entry(e, sender, now, req) is Some) <==> (d.amount >= 0 && balance_in(e, k)
            + d.amount <= i64::MAX),
        d.amount < 0 ==> refuses_with(
            plan_outcome(e, sender, now, req).response,
            ErrorCode::InvalidAmount,
        ),
        d.amount >= 0 && balance_in(e, k) + d.amount > i64::MAX ==> refuses_with(
            plan_outcome(e, sender, now, req).response,
            ErrorCode::Overflow,
        ),
        planned_entry(e, sender, now, req) is Some ==> {
            &&& reports_balance(
                plan_outcome(e, sender, now, req).response,
                k,
                balance_in(e, k) + d.amount,
                balance_in(e, k) as int,
            )
            &&& balance_in(applied(e, planned_entry(e, sender, now, req)->0), k) == balance_in(e, k)
                + d.amount
        },
{
    if planned_entry(e, sender, now, req) is Some {
        lemma_deposit_reads_back(e, sender, now, req, d, k);
    }
}

/// Law: a transfer goes through exactly when its amount is not negative, the
/// two accounts differ, the payer can cover it and the payee's balance stays
/// within `i64::MAX`; it then reports both accounts' balances before and
/// after. A payer who cannot cover it is refused with INSUFFICIENT_FUNDS.
pub proof fn lemma_transfers_go_through_when_covered(
    e: EconomyView,
    sender: Seq<char>,
    now: u64,
    req: Request,
    t: request::Transfer,
    from: IdView,
    to: IdView,
)
    requires
        current(req),
        req.body == Some(request::Body::Transfer(t)),
        resolved_existing(e, opt_id(t.from)) == Ok::<IdView, crate::proto::ResponseView>(from),
        resolved_existing(e, opt_id(t.to)) == Ok::<IdView, crate::proto::ResponseView>(to),
    ensures
        (planned_entry(e, sender, now, req) is Some) <==> (t.amount >= 0 && from != to && t.amount
            <= balance_in(e, from) && balance_in(e, to) + t.amount <= i64::MAX),
        t.amount >= 0 && from != to && t.amount > balance_in(e, from) ==> refuses_with(
            plan_outcome(e, sender, now, req).response,
            ErrorCode::InsufficientFunds,
        ),
        planned_entry(e, sender, now, req) is Some ==> (plan_outcome(
            e,
            sender,
            now,
            req,
        ).response.body matches Some(BodyView::Transfer(Some(x), Some(y))) && x.account == Some(
            Some(from),
        ) && x.amount == balance_in(e, from) - t.amount && x.previous == balance_in(e, from)
            && y.account == Some(Some(to)) && y.amount == balance_in(e, to) + t.amount
            && y.previous == balance_in(e, to)),
{
}

/// Law: setting a balance goes through exactly when the amount is not
/// negative and the sender may manage the account; the account then holds
/// exactly the amount, and the answer reports it with the balance before. A
/// sender who may not is refused with PERMISSION_DENIED.
pub proof fn lemma_set_balance_sets_exactly(
    e: EconomyView,
    sender: Seq<char>,
    now: u64,
    req: Request,
    b: request::SetBalance,
    k: IdView,
)
    requires
        current(req),
        req.body == Some(request::Body::SetBalance(b)),
        resolved_existing(e, opt_id(b.account)) == Ok::<IdView, crate::proto::ResponseView>(k),
    ensures
        (planned_entry(e, sender, now, req) is Some) <==> (b.amount >= 0 && may_manage(e, sender, k)),
        b.amount >= 0 && !may_manage(e, sender, k) ==> refuses_with(
            plan_outcome(e, sender, now, req).response,
            ErrorCode::PermissionDenied,
        ),
        planned_entry(e, sender, now, req) is Some ==> {
            &&& reports_balance(
                plan_outcome(e, sender, now, req).response,
                k,
                b.amount as int,
                balance_in(e, k) as int,
            )
            &&& balance_in(applied(e, planned_entry(e, sender, now, req)->0), k) == b.amount
        },
{
    if planned_entry(e, sender, now, req) is Some {
        lemma_set_balance_reads_back(e, sender, now, req, b, k);
    }
}

/// Law: an account that does not exist yet is created exactly when its
/// starting balance is not negative: the one asked for, or else the starting
/// balance for a player and 0 for a name. It then exists with that balance,
/// a named one owned by the sender, and the answer says so.
pub proof fn lemma_new_accounts_are_created(
    e: EconomyView,
    sender: Seq<char>,
    now: u64,
    req: Request,
    c: request::CreateAccount,
    k: IdView,
)
    requires
        current(req),
        req.body == Some(request::Body::CreateAccount(c)),
        resolved(opt_id(c.account)) == Ok::<IdView, crate::proto::ResponseView>(k),
        !e.accounts.contains_key(k),
    ensures
        ({
            let initial = match c.initial_balance {
                Some(x) => x,
                None => if k is Player {
                    e.config.starting_balance
                } else {
                    0
                },
            };
            let response = plan_outcome(e, sender, now, req).response;
            &&& (planned_entry(e, sender, now, req) is Some) <==> initial >= 0
            &&& initial < 0 ==> refuses_with(response, ErrorCode::InvalidAmount)
            &&& planned_entry(e, sender, now, req) is Some ==> {
                let after = applied(e, planned_entry(e, sender, now, req)->0);
                &&& after.accounts.contains_key(k)
                &&& after.accounts[k].balance == initial
                &&& after.accounts[k].owner == (if k is Named {
                    Some(sender)
                } else {
                    None::<Seq<char>>
                })
                &&& response.body == Some(
                    BodyView::Account(crate::proto::AccountStatus { exists: true, balance: initial }),
                )
            }
        }),
{
    if planned_entry(e, sender, now, req) is Some {
        let en = planned_entry(e, sender, now, req)->0;
        let effs = en.effects;
        assert(effs.drop_last() =~= Seq::<EffectView>::empty());
        assert(apply_effects(e.accounts, effs.drop_last()) == e.accounts);
        assert(apply_effects(e.accounts, effs) == apply_effect(e.accounts, effs.last()));
        lemma_apply_effect_lookup(e.accounts, effs.last(), k);
    }
}

/// Law: a named account that exists is deleted exactly when the sender may
/// manage it, and is gone afterwards; anyone else is refused with
/// PERMISSION_DENIED. A named account that was never created cannot be
/// deleted: the request is refused with ACCOUNT_NOT_FOUND.
pub proof fn lemma_deleting_named_accounts(
    e: EconomyView,
    sender: Seq<char>,
    now: u64,
    req: Request,
    d: request::DeleteAccount,
    k: IdView,
)
    requires
        current(req),
        req.body == Some(request::Body::DeleteAccount(d)),
        resolved(opt_id(d.account)) == Ok::<IdView, crate::proto::ResponseView>(k),
        k is Named,
    ensures
        !e.accounts.contains_key(k) ==> planned_entry(e, sender, now, req) is None && refuses_with(
            plan_outcome(e, sender, now, req).response,
            ErrorCode::AccountNotFound,
        ),
        e.accounts.contains_key(k) ==> ((planned_entry(e, sender, now, req) is Some) <==> may_manage(
            e,
            sender,
            k,
        )),
        e.accounts.contains_key(k) && !may_manage(e, sender, k) ==> refuses_with(
            plan_outcome(e, sender, now, req).response,
            ErrorCode::PermissionDenied,
        ),
        planned_entry(e, sender, now, req) is Some ==> !applied(
            e,
            planned_entry(e, sender, now, req)->0,
        ).accounts.contains_key(k),
{
    if planned_entry(e, sender, now, req) is Some {
        lemma_deleted_accounts_are_gone(e, sender, now, req, d, k);
    }
}

/// Law: a named account that was never created has no balance to ask for:
/// the query is refused with ACCOUNT_NOT_FOUND.
pub proof fn lemma_unknown_names_have_no_balance(
    e: EconomyView,
    sender: Seq<char>,
    now: u64,
    req: Request,
    g: request::GetBalance,
    k: IdView,
)
    requires
        current(req),
        req.body == Some(request::Body::GetBalance(g)),
        resolved(opt_id(g.account)) == Ok::<IdView, crate::proto::ResponseView>(k),
        k is Named,
        !e.accounts.contains_key(k),
    ensures
        refuses_with(plan_outcome(e, sender, now, req).response, ErrorCode::AccountNotFound),
{
}

/// Law: asking whether a balance covers an amount answers whether the
/// account's balance is at least the amount, with that balance.
pub proof fn lemma_has_balance_compares_with_the_balance(
    e: EconomyView,
    sender: Seq<char>,
    now: u64,
    req: Request,
    h: request::HasBalance,
    k: IdView,
)
    requires
        current(req),
        req.body == Some(request::Body::HasBalance(h)),
        resolved_existing(e, opt_id(h.account)) == Ok::<IdView, crate::proto::ResponseView>(k),
        h.amount >= 0,
    ensures
        plan_outcome(e, sender, now, req).response.body matches Some(BodyView::HasBalance(x))
            && x.sufficient == (balance_in(e, k) >= h.amount) && x.balance == balance_in(e, k),
{
}

/// Law: asking whether an account exists answers whether the ledger holds it,
/// with the balance it reads as.
pub proof fn lemma_account_exists_answers_membership(
    e: EconomyView,
    sender: Seq<char>,
    now: u64,
    req: Request,
    a: request::AccountExists,
    k: IdView,
)
    requires
        current(req),
        req.body == Some(request::Body::AccountExists(a)),
        resolved(opt_id(a.account)) == Ok::<IdView, crate::proto::ResponseView>(k),
    ensures
        plan_outcome(e, sender, now, req).response.body matches Some(BodyView::Account(x))
            && x.exists == e.accounts.contains_key(k) && x.balance == balance_in(e, k),
{
}

} // verus!
