//! The server owner's settings for the economy.
use vstd::prelude::*;
use vstd::string::*;

use crate::money::MAX_FRACTION_DIGITS;

verus! {

/// The server owner's settings.
#[derive(Debug, PartialEq, Eq)]
pub struct Config {
    pub currency_name: String,
    pub currency_plural: String,
    pub currency_symbol: String,
    pub fraction_digits: u32,
    pub starting_balance: i64,
    pub autosave_ticks: u64,
    pub log_compaction_threshold: u64,
}

/// The fewest ticks between automatic saves.
pub const MIN_AUTOSAVE_TICKS: u64 = 20;

/// The fewest journal entries between compactions.
pub const MIN_COMPACTION_THRESHOLD: u64 = 100;

/// Settings within the bounds that `sanitize` establishes.
pub open spec fn sanitized(c: Config) -> bool {
    &&& c.fraction_digits <= MAX_FRACTION_DIGITS
    &&& c.starting_balance >= 0
    &&& c.autosave_ticks >= MIN_AUTOSAVE_TICKS
    &&& c.log_compaction_threshold >= MIN_COMPACTION_THRESHOLD
}

impl Clone for Config {
    fn clone(&self) -> (r: Self)
        ensures
            r == *self,
    {
        Config {
            currency_name: self.currency_name.clone(),
            currency_plural: self.currency_plural.clone(),
            currency_symbol: self.currency_symbol.clone(),
            fraction_digits: self.fraction_digits,
            starting_balance: self.starting_balance,
            autosave_ticks: self.autosave_ticks,
            log_compaction_threshold: self.log_compaction_threshold,
        }
    }
}

impl Default for Config {
    fn default() -> (r: Self)
        ensures
            r.currency_name@ == "coin"@,
            r.currency_plural@ == "coins"@,
            r.currency_symbol@ == "$"@,
            r.fraction_digits == 2,
            r.starting_balance == 0,
            r.autosave_ticks == 6000,
            r.log_compaction_threshold == 5000,
    {
        Config {
            currency_name: String::from_str("coin"),
            currency_plural: String::from_str("coins"),
            currency_symbol: String::from_str("$"),
            fraction_digits: 2,
            starting_balance: 0,
            autosave_ticks: 6000,
            log_compaction_threshold: 5000,
        }
    }
}

impl Config {
    /// Brings every setting into range: at most `MAX_FRACTION_DIGITS` fraction
    /// digits, no negative starting balance, at least `MIN_AUTOSAVE_TICKS`
    /// between saves and `MIN_COMPACTION_THRESHOLD` entries between compactions.
    pub fn sanitize(&mut self)
        ensures
            final(self).currency_name == old(self).currency_name,
            final(self).currency_plural == old(self).currency_plural,
            final(self).currency_symbol == old(self).currency_symbol,
            final(self).fraction_digits == (if old(self).fraction_digits < MAX_FRACTION_DIGITS {
                old(self).fraction_digits
            } else {
                MAX_FRACTION_DIGITS
            }),
            final(self).starting_balance == (if old(self).starting_balance > 0 {
                old(self).starting_balance
            } else {
                0
            }),
            final(self).autosave_ticks == (if old(self).autosave_ticks > MIN_AUTOSAVE_TICKS {
                old(self).autosave_ticks
            } else {
                MIN_AUTOSAVE_TICKS
            }),
            final(self).log_compaction_threshold == (if old(self).log_compaction_threshold
                > MIN_COMPACTION_THRESHOLD {
                old(self).log_compaction_threshold
            } else {
                MIN_COMPACTION_THRESHOLD
            }),
            sanitized(*final(self)),
            sanitized(*old(self)) ==> *final(self) == *old(self),
    {
        if self.fraction_digits > MAX_FRACTION_DIGITS {
            self.fraction_digits = MAX_FRACTION_DIGITS;
        }
        if self.starting_balance < 0 {
            self.starting_balance = 0;
        }
        if self.autosave_ticks < MIN_AUTOSAVE_TICKS {
            self.autosave_ticks = MIN_AUTOSAVE_TICKS;
        }
        if self.log_compaction_threshold < MIN_COMPACTION_THRESHOLD {
            self.log_compaction_threshold = MIN_COMPACTION_THRESHOLD;
        }
    }
}

} // verus!
