//! The plugin's side of a request: what to answer once the journal has, or
//! has not, taken the entry, and when the journal is due for compaction.
use vstd::prelude::*;
use vstd::string::*;

use crate::config::Config;
use crate::ledger::{applied, Economy, Outcome};
use crate::money::{format_amount, format_text};
use crate::proto::{failure, ErrorCode, Response, ResponseView};

verus! {

/// The answer to a request whose entry could not be journalled.
pub open spec fn storage_failure() -> ResponseView {
    failure(
        ErrorCode::StorageError,
        "the transaction could not be written to disk, so it was not applied"@,
    )
}

/// Finishes a planned request. An entry is applied only once it has been
/// journalled (`written`); if journalling failed the economy is left as it
/// was and the answer is a storage error.
pub fn settle(economy: &mut Economy, outcome: Outcome, written: bool) -> (r: Response)
    ensures
        match outcome.entry {
            None => final(economy)@ == old(economy)@ && r@ == outcome.response@,
            Some(entry) => if written {
                final(economy)@ == applied(old(economy)@, entry@) && r@ == outcome.response@
            } else {
                final(economy)@ == old(economy)@ && r@ == storage_failure()
            },
        },
{
    match outcome.entry {
        None => outcome.response,
        Some(entry) => {
            if written {
                economy.apply(&entry);
                outcome.response
            } else {
                Response::error(
                    ErrorCode::StorageError,
                    String::from_str(
                        "the transaction could not be written to disk, so it was not applied",
                    ),
                )
            }
        },
    }
}

/// Whether the journal has grown enough since the last snapshot to be
/// compacted.
pub fn needs_compaction(entries_since_snapshot: u64, threshold: u64) -> (r: bool)
    ensures
        r == (entries_since_snapshot >= threshold),
{
    entries_since_snapshot >= threshold
}

/// An amount with the currency symbol in front, as the plugin shows it.
pub fn format_money(config: &Config, amount: i64) -> (r: String)
    ensures
        r@ == config.currency_symbol@ + format_text(amount, config.fraction_digits),
{
    let mut r = config.currency_symbol.clone();
    let text = format_amount(amount, config.fraction_digits);
    r.append(text.as_str());
    r
}

} // verus!
