//! The PVault economy: a verified ledger of balances, the protocol that other
//! plugins speak with it, and the journal it keeps.
use vstd::prelude::*;

pub mod account;
pub mod client;
pub mod commands;
pub mod config;
pub mod guarantees;
pub mod journal;
pub mod ledger;
pub mod money;
pub mod order;
pub mod proto;
pub mod service;
pub mod table;
pub mod text;

use crate::config::Config;
use crate::journal::{decoded_entries, decoded_problems, entries_view, parse_log, texts_view, DecodedLine, Snapshot};
use crate::ledger::{fresh, replay, restored, Economy, EconomyView};

verus! {

/// Where recovery starts: the snapshot if there is one, else an empty economy.
pub open spec fn recovery_start(config: Config, snapshot: Option<Snapshot>) -> EconomyView {
    match snapshot {
        Some(s) => restored(config, &s),
        None => fresh(config),
    }
}

/// Rebuilds the economy after a restart: the snapshot, if any, with every
/// journal entry newer than it replayed on top, and a report for each journal
/// line that could not be read.
pub fn recover(config: Config, snapshot: Option<Snapshot>, log: Vec<DecodedLine>) -> (r: (
    Economy,
    Vec<String>,
))
    ensures
        r.0@ == replay(recovery_start(config, snapshot), decoded_entries(log@)),
        texts_view(r.1@) == decoded_problems(log@),
{
    let ghost start = recovery_start(config, snapshot);
    let mut economy = match snapshot {
        Some(snapshot) => Economy::from_snapshot(config, snapshot),
        None => Economy::new(config),
    };
    let (entries, problems) = parse_log(log);
    let ghost all = entries_view(entries@);
    let mut i: usize = 0;
    while i < entries.len()
        invariant
            i <= entries@.len(),
            all == entries_view(entries@),
            economy@ == replay(start, all.subrange(0, i as int)),
        decreases entries@.len() - i,
    {
        proof {
            assert(all.subrange(0, i + 1).drop_last() =~= all.subrange(0, i as int));
            assert(all.subrange(0, i + 1).last() == entries@[i as int]@);
        }
        if entries[i].seq > economy.seq() {
            economy.apply(&entries[i]);
        }
        i = i + 1;
    }
    assert(all.subrange(0, i as int) =~= all);
    (economy, problems)
}

} // verus!
