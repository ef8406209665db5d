//! The transaction journal: the entries that record each change, the snapshot
//! that the journal is replayed on, and the framing of the journal's text
//! into lines.
use vstd::prelude::*;
use vstd::string::*;

use crate::account::{text_option, AccountKey};
use crate::money::trim;
use crate::proto::IdView;
use crate::table::AccountTable;
use crate::text::{chars_of, decimal, decimal_string, find_char, first_index, is_whitespace, is_whitespace_char};

verus! {

/// The newest snapshot format this library reads and writes.
pub const SNAPSHOT_FORMAT: u32 = 1;

/// One change to one account.
#[derive(Debug, PartialEq, Eq)]
pub enum Effect {
    /// The account gets `balance`; if it does not exist yet it is created
    /// with `owner`.
    Assign { account: AccountKey, balance: i64, owner: Option<String> },
    /// The account is closed.
    Remove { account: AccountKey },
}

/// An effect as plain values.
pub enum EffectView {
    Assign { account: IdView, balance: i64, owner: Option<Seq<char>> },
    Remove { account: IdView },
}

impl View for Effect {
    type V = EffectView;

    open spec fn view(&self) -> EffectView {
        match self {
            Effect::Assign { account, balance, owner } => EffectView::Assign {
                account: account@,
                balance: *balance,
                owner: text_option(*owner),
            },
            Effect::Remove { account } => EffectView::Remove { account: account@ },
        }
    }
}

impl Effect {
    /// The account the effect changes.
    pub fn account(&self) -> (r: &AccountKey)
        ensures
            r@ == match self@ {
                EffectView::Assign { account, .. } => account,
                EffectView::Remove { account } => account,
            },
    {
        match self {
            Effect::Assign { account, .. } => account,
            Effect::Remove { account } => account,
        }
    }
}

/// One journalled transaction: its sequence number, when and by whom it was
/// asked for, what it was, and what it changed.
#[derive(Debug, PartialEq, Eq)]
pub struct LogEntry {
    pub seq: u64,
    pub time: u64,
    pub sender: String,
    pub op: String,
    pub reason: String,
    pub effects: Vec<Effect>,
}

/// A journal entry as plain values.
pub struct LogEntryView {
    pub seq: u64,
    pub time: u64,
    pub sender: Seq<char>,
    pub op: Seq<char>,
    pub reason: Seq<char>,
    pub effects: Seq<EffectView>,
}

/// The effects of an entry as plain values.
pub open spec fn effects_view(effects: Seq<Effect>) -> Seq<EffectView> {
    effects.map_values(|e: Effect| e@)
}

impl View for LogEntry {
    type V = LogEntryView;

    open spec fn view(&self) -> LogEntryView {
        LogEntryView {
            seq: self.seq,
            time: self.time,
            sender: self.sender@,
            op: self.op@,
            reason: self.reason@,
            effects: effects_view(self.effects@),
        }
    }
}

/// The ledger at one sequence number, from which the journal is replayed.
pub struct Snapshot {
    pub format: u32,
    pub seq: u64,
    pub accounts: AccountTable,
}

/// The refusal of a snapshot written by a newer version.
pub open spec fn newer_format_text(format: u32) -> Seq<char> {
    "snapshot format "@ + decimal(format as nat) + " is newer than this plugin understands ("@
        + decimal(SNAPSHOT_FORMAT as nat) + ")"@
}

impl Snapshot {
    /// Accepts a snapshot whose format this version understands.
    pub fn check_format(self) -> (r: Result<Snapshot, String>)
        ensures
            self.format <= SNAPSHOT_FORMAT ==> (r matches Ok(s) && s == self),
            self.format > SNAPSHOT_FORMAT ==> (r matches Err(m) && m@ == newer_format_text(
                self.format,
            )),
    {
        if self.format > SNAPSHOT_FORMAT {
            let mut m = String::from_str("snapshot format ");
            let f = decimal_string(self.format as u64);
            m.append(f.as_str());
            m.append(" is newer than this plugin understands (");
            let ours = decimal_string(SNAPSHOT_FORMAT as u64);
            m.append(ours.as_str());
            m.append(")");
            return Err(m);
        }
        Ok(self)
    }
}

/// The lines of a text as `str::lines` gives them: split at each `\n`, a `\r`
/// right before the `\n` dropped, and no empty line after a final `\n`.
pub open spec fn lines_of(s: Seq<char>) -> Seq<Seq<char>>
    decreases s.len(),
{
    if s.len() == 0 {
        Seq::empty()
    } else {
        let p = first_index(s, '\n');
        if p < s.len() {
            let piece = s.subrange(0, p as int);
            let line = if piece.len() > 0 && piece.last() == '\r' {
                piece.drop_last()
            } else {
                piece
            };
            seq![line] + lines_of(s.subrange(p as int + 1, s.len() as int))
        } else {
            seq![s]
        }
    }
}

/// A line that holds only whitespace.
pub open spec fn blank(line: Seq<char>) -> bool {
    trim(line).len() == 0
}

/// The lines that are not blank, each with its 1-based line number.
pub open spec fn numbered_lines(lines: Seq<Seq<char>>) -> Seq<(nat, Seq<char>)>
    decreases lines.len(),
{
    if lines.len() == 0 {
        Seq::empty()
    } else {
        let before = numbered_lines(lines.drop_last());
        if blank(lines.last()) {
            before
        } else {
            before.push((lines.len(), lines.last()))
        }
    }
}

/// A line of the journal, with its 1-based number.
#[derive(Debug)]
pub struct LogLine {
    pub number: usize,
    pub text: String,
}

/// Whether a range of characters holds only whitespace.
fn blank_range(chars: &Vec<char>, a: usize, b: usize) -> (r: bool)
    requires
        a <= b <= chars@.len(),
    ensures
        r == blank(chars@.subrange(a as int, b as int)),
{
    let ghost t = chars@.subrange(a as int, b as int);
    let mut i: usize = a;
    while i < b
        invariant
            a <= i <= b <= chars@.len(),
            t == chars@.subrange(a as int, b as int),
            forall|j: int| 0 <= j < i - a ==> is_whitespace(#[trigger] t[j]),
        decreases b - i,
    {
        if !is_whitespace_char(chars[i]) {
            proof {
                assert(t[i - a] == chars@[i as int]);
                crate::money::lemma_trim_front(t, i - a);
                let f = t.subrange(i - a, t.len() as int);
                assert(f[0] == t[i - a]);
                crate::money::lemma_trim_back_keeps_first(f);
            }
            return false;
        }
        assert(t[i - a] == chars@[i as int]);
        i = i + 1;
    }
    proof {
        crate::money::lemma_trim_front(t, t.len() as int);
        assert(t.subrange(t.len() as int, t.len() as int) =~= Seq::<char>::empty());
    }
    true
}

/// The lines of a range of characters, as `lines_of` splits them.
proof fn lemma_lines_step(s: Seq<char>, start: int, p: int)
    requires
        0 <= start <= p < s.len(),
        s[p] == '\n',
        forall|i: int| start <= i < p ==> s[i] != '\n',
    ensures
        ({
            let piece = s.subrange(start, p);
            let line = if piece.len() > 0 && piece.last() == '\r' {
                piece.drop_last()
            } else {
                piece
            };
            lines_of(s.subrange(start, s.len() as int)) == seq![line] + lines_of(
                s.subrange(p + 1, s.len() as int),
            )
        }),
{
    let t = s.subrange(start, s.len() as int);
    assert forall|i: int| 0 <= i < p - start implies #[trigger] t[i] != '\n' by {
        assert(t[i] == s[i + start]);
    }
    crate::text::lemma_first_index(t, '\n', p - start);
    assert(t.subrange(0, p - start) =~= s.subrange(start, p));
    assert(t.subrange(p - start + 1, t.len() as int) =~= s.subrange(p + 1, s.len() as int));
}

/// Splits a journal's text into its lines that are not blank, numbered from 1.
pub fn log_lines(contents: &str) -> (r: Vec<LogLine>)
    ensures
        r@.len() == numbered_lines(lines_of(contents@)).len(),
        forall|i: int|
            0 <= i < r@.len() ==> (#[trigger] r@[i]).number == numbered_lines(lines_of(contents@))[i].0
                && r@[i].text@ == numbered_lines(lines_of(contents@))[i].1,
{
    let chars = chars_of(contents);
    let n = chars.len();
    let ghost s = chars@;
    let mut r: Vec<LogLine> = Vec::new();
    let mut start: usize = 0;
    let mut count: usize = 0;
    let ghost mut done: Seq<Seq<char>> = Seq::empty();
    assert(s.subrange(0, n as int) =~= s);
    assert(done + lines_of(s) =~= lines_of(s));
    while start < n
        invariant
            s == chars@,
            s == contents@,
            n == s.len(),
            start <= n,
            count == done.len(),
            count <= start,
            lines_of(s) == done + lines_of(s.subrange(start as int, n as int)),
            r@.len() == numbered_lines(done).len(),
            forall|i: int|
                0 <= i < r@.len() ==> (#[trigger] r@[i]).number == numbered_lines(done)[i].0
                    && r@[i].text@ == numbered_lines(done)[i].1,
        decreases n - start,
    {
        let p = find_char(&chars, start, n, '\n');
        let ghost rest = s.subrange(start as int, n as int);
        if p < n {
            let end = if p > start && chars[p - 1] == '\r' {
                p - 1
            } else {
                p
            };
            let ghost line = s.subrange(start as int, end as int);
            proof {
                lemma_lines_step(s, start as int, p as int);
                let piece = s.subrange(start as int, p as int);
                if piece.len() > 0 && piece.last() == '\r' {
                    assert(piece.drop_last() =~= line);
                } else {
                    assert(piece =~= line);
                }
            }
            let is_blank = blank_range(&chars, start, end);
            let ghost before = done;
            proof {
                done = done.push(line);
                assert(done.drop_last() =~= before);
                assert(lines_of(s) == done + lines_of(s.subrange(p + 1, n as int))) by {
                    assert(seq![line] + lines_of(s.subrange(p + 1, n as int)) == lines_of(rest));
                    assert(before + (seq![line] + lines_of(s.subrange(p + 1, n as int))) =~= done
                        + lines_of(s.subrange(p + 1, n as int)));
                }
            }
            count = count + 1;
            if !is_blank {
                let text = contents.substring_char(start, end).to_owned();
                let ghost old_r = r@;
                r.push(LogLine { number: count, text });
                proof {
                    assert(numbered_lines(done) == numbered_lines(before).push((done.len(), line)));
                    assert forall|i: int| 0 <= i < r@.len() implies (#[trigger] r@[i]).number
                        == numbered_lines(done)[i].0 && r@[i].text@ == numbered_lines(done)[i].1 by {
                        if i < old_r.len() {
                            assert(r@[i] == old_r[i]);
                        }
                    }
                }
            } else {
                assert(numbered_lines(done) == numbered_lines(before));
            }
            start = p + 1;
        } else {
            proof {
                assert(forall|i: int| 0 <= i < rest.len() ==> rest[i] == s[i + start]);
                crate::text::lemma_first_index(rest, '\n', rest.len() as int);
                assert(lines_of(rest) == seq![rest]);
                assert(lines_of(rest.subrange(rest.len() as int, rest.len() as int)) == Seq::<
                    Seq<char>,
                >::empty());
            }
            let is_blank = blank_range(&chars, start, n);
            let ghost before = done;
            proof {
                done = done.push(rest);
                assert(done.drop_last() =~= before);
                assert(lines_of(s) =~= done + lines_of(s.subrange(n as int, n as int)));
            }
            count = count + 1;
            if !is_blank {
                let text = contents.substring_char(start, n).to_owned();
                let ghost old_r = r@;
                r.push(LogLine { number: count, text });
                proof {
                    assert(numbered_lines(done) == numbered_lines(before).push((done.len(), rest)));
                    assert forall|i: int| 0 <= i < r@.len() implies (#[trigger] r@[i]).number
                        == numbered_lines(done)[i].0 && r@[i].text@ == numbered_lines(done)[i].1 by {
                        if i < old_r.len() {
                            assert(r@[i] == old_r[i]);
                        }
                    }
                }
            } else {
                assert(numbered_lines(done) == numbered_lines(before));
            }
            start = n;
        }
    }
    proof {
        assert(lines_of(s.subrange(n as int, n as int)) == Seq::<Seq<char>>::empty()) by {
            assert(s.subrange(n as int, n as int).len() == 0);
        }
        assert(done + Seq::<Seq<char>>::empty() =~= done);
    }
    r
}

/// A line of the journal after decoding: the entry it holds, or why it could
/// not be read.
pub struct DecodedLine {
    pub number: usize,
    pub entry: Result<LogEntry, String>,
}

/// The entries that decoded, in journal order.
pub open spec fn decoded_entries(lines: Seq<DecodedLine>) -> Seq<LogEntryView>
    decreases lines.len(),
{
    if lines.len() == 0 {
        Seq::empty()
    } else {
        let before = decoded_entries(lines.drop_last());
        match lines.last().entry {
            Ok(entry) => before.push(entry@),
            Err(_) => before,
        }
    }
}

/// The report of a line that did not decode.
pub open spec fn problem_text(number: usize, error: Seq<char>) -> Seq<char> {
    "log line "@ + decimal(number as nat) + ": "@ + error
}

/// A report for each line that did not decode, in journal order.
pub open spec fn decoded_problems(lines: Seq<DecodedLine>) -> Seq<Seq<char>>
    decreases lines.len(),
{
    if lines.len() == 0 {
        Seq::empty()
    } else {
        let before = decoded_problems(lines.drop_last());
        match lines.last().entry {
            Ok(_) => before,
            Err(e) => before.push(problem_text(lines.last().number, e@)),
        }
    }
}

/// The views of a list of entries.
pub open spec fn entries_view(entries: Seq<LogEntry>) -> Seq<LogEntryView> {
    entries.map_values(|e: LogEntry| e@)
}

/// The views of a list of strings.
pub open spec fn texts_view(texts: Seq<String>) -> Seq<Seq<char>> {
    texts.map_values(|t: String| t@)
}

/// Sorts decoded journal lines into the entries they hold and a report for
/// each line that could not be read.
pub fn parse_log(lines: Vec<DecodedLine>) -> (r: (Vec<LogEntry>, Vec<String>))
    ensures
        entries_view(r.0@) == decoded_entries(lines@),
        texts_view(r.1@) == decoded_problems(lines@),
{
    let ghost all = lines@;
    let mut entries: Vec<LogEntry> = Vec::new();
    let mut problems: Vec<String> = Vec::new();
    let mut lines = lines;
    let mut rest: Vec<DecodedLine> = Vec::new();
    assert(all =~= lines@ + rest@.reverse());
    // Take the lines in order: reverse them once, then pop from the back.
    while lines.len() > 0
        invariant
            all == lines@ + rest@.reverse(),
        decreases lines@.len(),
    {
        let ghost before = lines@;
        let ghost rest_before = rest@;
        let line = lines.pop().unwrap();
        rest.push(line);
        proof {
            assert(before =~= lines@.push(line));
            assert(rest@.reverse() =~= seq![line] + rest_before.reverse());
            assert(all =~= lines@ + rest@.reverse());
        }
    }
    assert(all =~= rest@.reverse());
    assert(all =~= Seq::<DecodedLine>::empty() + rest@.reverse());
    let ghost mut taken: Seq<DecodedLine> = Seq::empty();
    while rest.len() > 0
        invariant
            all == taken + rest@.reverse(),
            entries_view(entries@) == decoded_entries(taken),
            texts_view(problems@) == decoded_problems(taken),
        decreases rest@.len(),
    {
        let ghost rest_before = rest@;
        let line = rest.pop().unwrap();
        let ghost taken_before = taken;
        proof {
            taken = taken.push(line);
            assert(rest_before =~= rest@.push(line));
            assert(rest_before.reverse() =~= seq![line] + rest@.reverse());
            assert(all =~= taken + rest@.reverse());
            assert(taken.drop_last() =~= taken_before);
        }
        match line.entry {
            Ok(entry) => {
                let ghost e_before = entries@;
                entries.push(entry);
                assert(entries_view(entries@) =~= entries_view(e_before).push(entries@.last()@));
            },
            Err(error) => {
                let mut m = String::from_str("log line ");
                let n = decimal_string(line.number as u64);
                m.append(n.as_str());
                m.append(": ");
                m.append(error.as_str());
                let ghost p_before = problems@;
                problems.push(m);
                assert(texts_view(problems@) =~= texts_view(p_before).push(problems@.last()@));
            },
        }
    }
    assert(taken =~= all);
    (entries, problems)
}

} // verus!
