//! # Journal Module
//!
//! Logs of the canister: what happened during strategy executions, recharges and
//! cleanups, and responses that are returned to no caller. A `JournalCollection`
//! is opened for one activity, collects entries, and is closed into a
//! `StableJournalCollection` that the canister keeps.

use vstd::prelude::*;

use crate::error::ManagerResult;

verus! {

/// Enum representing the type of a log entry.
#[derive(Clone, Copy, Debug, PartialEq, Eq, Structural)]
pub enum LogType {
    /// Log related to rate adjustments.
    RateAdjustment,
    /// Logs results of executions.
    ExecutionResult,
    /// General information logs.
    Info,
    /// Logs changes in provider reputation.
    ProviderReputationChange,
    /// Logs related to recharges.
    Recharge,
}

/// Represents a single log entry within a journal.
#[derive(Debug)]
pub struct JournalEntry {
    /// Timestamp when the entry was created.
    pub date_and_time: String,
    /// The result or status associated with the log.
    pub entry: ManagerResult<()>,
    /// Optional note providing additional details.
    pub note: Option<String>,
    /// The type/category of the log.
    pub log_type: LogType,
}

/// A runtime journal collection for recording log entries.
#[derive(Debug)]
pub struct JournalCollection {
    /// Timestamp when the journal was opened.
    pub start_date_and_time: String,
    /// Timestamp when the journal was closed.
    pub end_date_and_time: String,
    /// Optional strategy ID.
    pub strategy: Option<u32>,
    /// A vector of `JournalEntry` instances.
    pub entries: Vec<JournalEntry>,
}

/// A closed journal collection, as the canister keeps it.
#[derive(Debug)]
pub struct StableJournalCollection {
    /// Start timestamp when the journal was created
    pub start_date_and_time: String,
    /// End timestamp when the journal was closed
    pub end_date_and_time: String,
    /// Optional strategy ID associated with the journal.
    pub strategy: Option<u32>,
    /// A list of `JournalEntry` instances representing individual logs
    pub entries: Vec<JournalEntry>,
}

/// Largest magnitude of a timestamp (in seconds) that `chrono` turns into a date
/// (its years run from -262143 to 262143).
pub const DATE_SECS_LIMIT: i64 = 8_000_000_000_000;

/// The text `dd-mm-yyyy hh:mm:ss` of the UTC time `secs` seconds after the Unix
/// epoch, as `chrono` formats it with `"%d-%m-%Y %H:%M:%S"`.
pub uninterp spec fn utc_date_time_text(secs: i64) -> Seq<char>;

/// `chrono::DateTime::<Utc>::from_timestamp(secs, 0)` formatted with
/// `"%d-%m-%Y %H:%M:%S"`. Claimed: `Some` for timestamps within `DATE_SECS_LIMIT`
/// (chrono returns `None` only outside its range of years), holding the text that
/// `utc_date_time_text` names, at least 19 characters long (two digits each for
/// day, month, hours, minutes and seconds, at least four for the year, and five
/// separators, as chrono's formatting code writes them).
#[verifier::external_body]
pub(crate) fn format_utc_timestamp(secs: i64) -> (r: Option<String>)
    ensures
        -DATE_SECS_LIMIT <= secs <= DATE_SECS_LIMIT ==> r is Some,
        r matches Some(t) ==> t@ == utc_date_time_text(secs),
        r matches Some(t) ==> t@.len() >= 19,
{
    match chrono::DateTime::<chrono::Utc>::from_timestamp(secs, 0) {
        Some(d) => Some(d.format("%d-%m-%Y %H:%M:%S").to_string()),
        None => None,
    }
}

/// The seconds that the journal reads from the canister time `now_ns`: the time
/// reinterpreted as an `i64` (two's complement), divided by 10^9 rounding toward
/// zero.
pub open spec fn journal_secs(now_ns: u64) -> i64 {
    if now_ns <= i64::MAX {
        (now_ns / 1_000_000_000) as i64
    } else {
        (-((18446744073709551616int - now_ns) / 1_000_000_000)) as i64
    }
}

/// The current UTC date and time at canister time `now_ns`, as
/// `dd-mm-yyyy hh:mm:ss`: never empty.
pub fn date_and_time(now_ns: u64) -> (r: String)
    ensures
        r@ == utc_date_time_text(journal_secs(now_ns)),
        r@.len() >= 19,
{
    // `now_ns as i64 / 1_000_000_000`, written out: the cast reinterprets the
    // bits, and the division rounds toward zero.
    let timestamp_s: i64 = if now_ns <= i64::MAX as u64 {
        (now_ns / 1_000_000_000) as i64
    } else {
        -(((u64::MAX - now_ns) / 1_000_000_000) as i64) - if (u64::MAX - now_ns) % 1_000_000_000
            == 999_999_999 {
            1
        } else {
            0
        }
    };
    match format_utc_timestamp(timestamp_s) {
        Some(t) => t,
        None => {
            assert(false);
            String::new()
        },
    }
}

/// An `Info` entry of a successful step with the given note, dated at canister
/// time `now_ns`.
pub open spec fn info_note(e: JournalEntry, note: Seq<char>, now_ns: u64) -> bool {
    &&& e.entry is Ok
    &&& e.log_type == LogType::Info
    &&& e.note matches Some(n) && n@ == note
    &&& e.date_and_time@ == utc_date_time_text(journal_secs(now_ns))
}

/// `after` is `before` with one `Info` entry appended for each note, in order.
pub open spec fn notes_appended(
    before: JournalCollection,
    after: JournalCollection,
    notes: Seq<Seq<char>>,
    now_ns: u64,
) -> bool {
    &&& after.start_date_and_time == before.start_date_and_time
    &&& after.end_date_and_time == before.end_date_and_time
    &&& after.strategy == before.strategy
    &&& after.entries@.len() == before.entries@.len() + notes.len()
    &&& after.entries@.subrange(0, before.entries@.len() as int) == before.entries@
    &&& forall|k: int|
        0 <= k < notes.len() ==> info_note(#[trigger] after.entries@[before.entries@.len() + k], notes[k], now_ns)
}

/// `after` is `before` with one entry of a successful step appended, of the
/// given type and with the given note.
pub open spec fn entry_appended(
    before: JournalCollection,
    after: JournalCollection,
    log_type: LogType,
    note: Seq<char>,
    now_ns: u64,
) -> bool {
    &&& after.start_date_and_time == before.start_date_and_time
    &&& after.end_date_and_time == before.end_date_and_time
    &&& after.strategy == before.strategy
    &&& after.entries@.len() == before.entries@.len() + 1
    &&& after.entries@.subrange(0, before.entries@.len() as int) == before.entries@
    &&& after.entries@.last().entry is Ok
    &&& after.entries@.last().log_type == log_type
    &&& after.entries@.last().note matches Some(n) && n@ == note
    &&& after.entries@.last().date_and_time@ == utc_date_time_text(journal_secs(now_ns))
}

/// Appending notes and then more notes appends them all, in order.
pub proof fn lemma_notes_chain(
    a: JournalCollection,
    b: JournalCollection,
    c: JournalCollection,
    n1: Seq<Seq<char>>,
    n2: Seq<Seq<char>>,
    now_ns: u64,
)
    requires
        notes_appended(a, b, n1, now_ns),
        notes_appended(b, c, n2, now_ns),
    ensures
        notes_appended(a, c, n1 + n2, now_ns),
{
    let la = a.entries@.len() as int;
    let lb = b.entries@.len() as int;
    assert(c.entries@.subrange(0, la) =~= c.entries@.subrange(0, lb).subrange(0, la));
    assert forall|k: int| 0 <= k < (n1 + n2).len() implies info_note(
        #[trigger] c.entries@[la + k],
        (n1 + n2)[k],
        now_ns,
    ) by {
        if k < n1.len() {
            assert(c.entries@.subrange(0, lb)[la + k] == b.entries@[la + k]);
        } else {
            assert(c.entries@[lb + (k - n1.len())] == c.entries@[la + k]);
        }
    }
}

/// Appending no notes leaves the journal as it is.
pub proof fn lemma_notes_none(a: JournalCollection, now_ns: u64)
    ensures
        notes_appended(a, a, Seq::empty(), now_ns),
{
    assert(a.entries@.subrange(0, a.entries@.len() as int) =~= a.entries@);
}

impl JournalEntry {
    /// Creates a new journal entry dated at canister time `now_ns`.
    pub fn new(entry: ManagerResult<()>, log_type: LogType, note: Option<String>, now_ns: u64) -> (r: Self)
        ensures
            r.date_and_time@ == utc_date_time_text(journal_secs(now_ns)),
            r.entry == entry,
            r.note == note,
            r.log_type == log_type,
    {
        JournalEntry { date_and_time: date_and_time(now_ns), entry, note, log_type }
    }
}

impl JournalCollection {
    /// Opens a new journal collection at canister time `now_ns`: dated, not yet
    /// closed, and empty.
    pub fn open(strategy: Option<u32>, now_ns: u64) -> (r: Self)
        ensures
            r.start_date_and_time@ == utc_date_time_text(journal_secs(now_ns)),
            r.end_date_and_time@ == Seq::<char>::empty(),
            r.strategy == strategy,
            r.entries@.len() == 0,
    {
        JournalCollection {
            start_date_and_time: date_and_time(now_ns),
            end_date_and_time: String::new(),
            strategy,
            entries: Vec::with_capacity(16),
        }
    }

    /// Appends a new log entry with a note, dated at canister time `now_ns`.
    pub fn append_note(&mut self, entry: ManagerResult<()>, log_type: LogType, note: &str, now_ns: u64) -> (r: &mut Self)
        ensures
            r.start_date_and_time == old(self).start_date_and_time,
            r.end_date_and_time == old(self).end_date_and_time,
            r.strategy == old(self).strategy,
            r.entries@.len() == old(self).entries@.len() + 1,
            r.entries@.subrange(0, old(self).entries@.len() as int) == old(self).entries@,
            ({
                let e = r.entries@.last();
                &&& e.entry == entry
                &&& e.log_type == log_type
                &&& e.note matches Some(n) && n@ == note@
                &&& e.date_and_time@ == utc_date_time_text(journal_secs(now_ns))
            }),
            *final(r) == *final(self),
    {
        let journal_entry = JournalEntry::new(entry, log_type, Some(note.to_string()), now_ns);
        self.entries.push(journal_entry);
        proof {
            assert(self.entries@.subrange(0, old(self).entries@.len() as int) =~= old(self).entries@);
        }
        self
    }

    /// Appends an `Info` entry of a successful step with the note, dated at
    /// canister time `now_ns`.
    pub fn append_info(&mut self, note: &str, now_ns: u64)
        ensures
            notes_appended(*old(self), *final(self), seq![note@], now_ns),
    {
        self.append_note(Ok(()), LogType::Info, note, now_ns);
        proof {
            assert(self.entries@[old(self).entries@.len() + 0int] == self.entries@.last());
        }
    }

    /// Closes the journal at canister time `now_ns` into the form the canister keeps.
    pub fn close(self, now_ns: u64) -> (r: StableJournalCollection)
        ensures
            r.start_date_and_time == self.start_date_and_time,
            r.end_date_and_time@ == utc_date_time_text(journal_secs(now_ns)),
            r.strategy == self.strategy,
            r.entries == self.entries,
    {
        StableJournalCollection {
            start_date_and_time: self.start_date_and_time,
            end_date_and_time: date_and_time(now_ns),
            strategy: self.strategy,
            entries: self.entries,
        }
    }
}

/// The collection holds exactly one entry, of type `ProviderReputationChange`.
pub open spec fn is_reputation_change_spec(c: StableJournalCollection) -> bool {
    c.entries@.len() == 1 && c.entries@[0].log_type == LogType::ProviderReputationChange
}

impl StableJournalCollection {
    /// Checks if the collection has exactly one entry and the log type is
    /// `ProviderReputationChange`.
    pub fn is_reputation_change(&self) -> (r: bool)
        ensures
            r == is_reputation_change_spec(*self),
            r == (self.entries@.len() == 1 && self.entries@[0].log_type == LogType::ProviderReputationChange),
    {
        if self.entries.len() == 1 {
            return match self.entries[0].log_type {
                LogType::ProviderReputationChange => true,
                _ => false,
            };
        }
        false
    }
}

/// Largest number of collections the journal keeps after a cleanup.
pub const JOURNAL_CAPACITY: usize = 300;

/// The journal without its reputation change collections, in order.
pub open spec fn without_reputation_changes(journal: Seq<StableJournalCollection>) -> Seq<StableJournalCollection> {
    journal.filter(|c: StableJournalCollection| !is_reputation_change_spec(c))
}

/// The last (at most) `n` elements of `s`.
pub open spec fn last_n<T>(s: Seq<T>, n: nat) -> Seq<T> {
    if s.len() > n {
        s.subrange(s.len() - n, s.len() as int)
    } else {
        s
    }
}

/// Cleans up the journal: removes every collection that is a single reputation
/// change, then keeps only the 300 most recent collections.
///
/// The canister keeps the journal in a stable-memory vector, whose elements must
/// implement the stable-storage trait of `ic_stable_structures`; the library
/// works on the journal's contents, in order, as a `Vec`.
pub fn journal_cleanup(journal: Vec<StableJournalCollection>) -> (r: Vec<StableJournalCollection>)
    ensures
        r@ == last_n(without_reputation_changes(journal@), JOURNAL_CAPACITY as nat),
{
    let ghost initial = journal@;
    let mut rest = journal;
    let mut kept: Vec<StableJournalCollection> = Vec::new();
    let n = rest.len();
    let mut i: usize = 0;
    while i < n
        invariant
            n == initial.len(),
            0 <= i <= n,
            rest@ == initial.subrange(i as int, n as int),
            kept@ == without_reputation_changes(initial.subrange(0, i as int)),
        decreases n - i,
    {
        let c = rest.remove(0);
        proof {
            assert(c == initial[i as int]);
            assert(rest@ =~= initial.subrange(i + 1, n as int));
            assert(initial.subrange(0, i + 1).drop_last() =~= initial.subrange(0, i as int));
            reveal_with_fuel(Seq::<_>::filter, 1);
        }
        if !c.is_reputation_change() {
            kept.push(c);
        }
        i = i + 1;
    }
    proof {
        assert(initial.subrange(0, n as int) =~= initial);
    }
    let len = kept.len();
    if len > JOURNAL_CAPACITY {
        let recent = kept.split_off(len - JOURNAL_CAPACITY);
        recent
    } else {
        kept
    }
}

/// The most recent `depth` collections of the journal (all of them if there are
/// fewer), oldest first.
pub fn get_logs(journal: &Vec<StableJournalCollection>, depth: u64) -> (r: Vec<&StableJournalCollection>)
    ensures
        r@.len() == last_n(journal@, depth as nat).len(),
        forall|i: int| 0 <= i < r@.len() ==> *r@[i] == last_n(journal@, depth as nat)[i],
{
    let len = journal.len();
    let start: usize = if (depth as u128) < (len as u128) { len - depth as usize } else { 0 };
    let mut r: Vec<&StableJournalCollection> = Vec::new();
    let mut i = start;
    while i < len
        invariant
            len == journal@.len(),
            start <= i <= len,
            start == if depth < len { len - depth } else { 0 },
            r@.len() == i - start,
            forall|k: int| 0 <= k < r@.len() ==> *r@[k] == journal@[start + k],
        decreases len - i,
    {
        r.push(&journal[i]);
        i = i + 1;
    }
    r
}

/// The collections of the strategy `strategy_key`, in order.
pub open spec fn strategy_collections(journal: Seq<StableJournalCollection>, strategy_key: u32) -> Seq<StableJournalCollection> {
    journal.filter(|c: StableJournalCollection| c.strategy == Some(strategy_key))
}

/// The most recent `depth` collections of the strategy `strategy_key`, oldest
/// first.
pub fn get_strategy_logs(
    journal: &Vec<StableJournalCollection>,
    depth: u64,
    strategy_key: u32,
) -> (r: Vec<&StableJournalCollection>)
    ensures
        r@.len() == last_n(strategy_collections(journal@, strategy_key), depth as nat).len(),
        forall|i: int|
            0 <= i < r@.len() ==> *r@[i] == last_n(strategy_collections(journal@, strategy_key), depth as nat)[i],
{
    let mut selected: Vec<&StableJournalCollection> = Vec::new();
    let n = journal.len();
    let mut i: usize = 0;
    let ghost mut sel: Seq<StableJournalCollection> = Seq::empty();
    while i < n
        invariant
            n == journal@.len(),
            0 <= i <= n,
            sel == strategy_collections(journal@.subrange(0, i as int), strategy_key),
            selected@.len() == sel.len(),
            forall|k: int| 0 <= k < selected@.len() ==> *selected@[k] == sel[k],
        decreases n - i,
    {
        proof {
            assert(journal@.subrange(0, i + 1).drop_last() =~= journal@.subrange(0, i as int));
            reveal_with_fuel(Seq::<_>::filter, 1);
        }
        if journal[i].strategy == Some(strategy_key) {
            selected.push(&journal[i]);
            proof {
                sel = sel.push(journal@[i as int]);
            }
        }
        i = i + 1;
    }
    proof {
        assert(journal@.subrange(0, n as int) =~= journal@);
    }
    let len = selected.len();
    let start: usize = if (depth as u128) < (len as u128) { len - depth as usize } else { 0 };
    let mut r: Vec<&StableJournalCollection> = Vec::new();
    let mut j = start;
    while j < len
        invariant
            len == selected@.len(),
            len == sel.len(),
            start <= j <= len,
            start == if depth < len { len - depth } else { 0 },
            r@.len() == j - start,
            forall|k: int| 0 <= k < selected@.len() ==> *selected@[k] == sel[k],
            forall|k: int| 0 <= k < r@.len() ==> *r@[k] == sel[start + k],
        decreases len - j,
    {
        r.push(selected[j]);
        j = j + 1;
    }
    r
}

/// Cleaning up leaves no reputation change collection and at most 300 collections.
pub proof fn lemma_cleanup_bounds(journal: Seq<StableJournalCollection>)
    ensures
        last_n(without_reputation_changes(journal), JOURNAL_CAPACITY as nat).len() <= JOURNAL_CAPACITY,
        forall|i: int|
            0 <= i < last_n(without_reputation_changes(journal), JOURNAL_CAPACITY as nat).len()
                ==> !is_reputation_change_spec(
                #[trigger] last_n(without_reputation_changes(journal), JOURNAL_CAPACITY as nat)[i],
            ),
{
    let f = without_reputation_changes(journal);
    let r = last_n(f, JOURNAL_CAPACITY as nat);
    assert forall|i: int| 0 <= i < r.len() implies !is_reputation_change_spec(#[trigger] r[i]) by {
        let k = if f.len() > JOURNAL_CAPACITY { f.len() - JOURNAL_CAPACITY + i } else { i };
        assert(r[i] == f[k]);
        journal.lemma_filter_pred(|c: StableJournalCollection| !is_reputation_change_spec(c), k);
    }
}

/// A journal with no reputation changes and no more than 300 collections is left
/// as it is by the cleanup.
pub proof fn lemma_cleanup_keeps_small_journal(journal: Seq<StableJournalCollection>)
    requires
        journal.len() <= JOURNAL_CAPACITY,
        forall|i: int| 0 <= i < journal.len() ==> !is_reputation_change_spec(#[trigger] journal[i]),
    ensures
        last_n(without_reputation_changes(journal), JOURNAL_CAPACITY as nat) == journal,
{
    assert(without_reputation_changes(journal) =~= journal) by {
        lemma_filter_all(journal);
    }
}

/// Cleaning up twice leaves the journal as cleaning up once.
pub proof fn lemma_cleanup_idempotent(journal: Seq<StableJournalCollection>)
    ensures
        ({
            let once = last_n(without_reputation_changes(journal), JOURNAL_CAPACITY as nat);
            last_n(without_reputation_changes(once), JOURNAL_CAPACITY as nat) == once
        }),
{
    lemma_cleanup_bounds(journal);
    lemma_cleanup_keeps_small_journal(last_n(without_reputation_changes(journal), JOURNAL_CAPACITY as nat));
}

/// Filtering keeps a sequence whose elements all pass.
proof fn lemma_filter_all(journal: Seq<StableJournalCollection>)
    requires
        forall|i: int| 0 <= i < journal.len() ==> !is_reputation_change_spec(#[trigger] journal[i]),
    ensures
        without_reputation_changes(journal) == journal,
    decreases journal.len(),
{
    reveal_with_fuel(Seq::<_>::filter, 1);
    if journal.len() > 0 {
        let prefix = journal.drop_last();
        assert forall|i: int| 0 <= i < prefix.len() implies !is_reputation_change_spec(#[trigger] prefix[i]) by {
            assert(prefix[i] == journal[i]);
        }
        lemma_filter_all(prefix);
        assert(prefix.push(journal.last()) =~= journal);
    } else {
        assert(journal.filter(|c: StableJournalCollection| !is_reputation_change_spec(c)) =~= journal);
    }
}

/// The cleanup drops exactly the collections made of one entry of type
/// `ProviderReputationChange`: every other collection of the journal (one entry
/// of another type, such as a recharge or an info log, or several entries) is
/// kept, and everything kept comes from the journal and is not such a
/// collection. A journal of at most 300 collections loses nothing else.
pub proof fn lemma_cleanup_drops_only_reputation_changes(journal: Seq<StableJournalCollection>)
    ensures
        forall|i: int|
            0 <= i < journal.len() && !(journal[i].entries@.len() == 1 && journal[i].entries@[0].log_type
                == LogType::ProviderReputationChange) ==> #[trigger] without_reputation_changes(journal).contains(
                journal[i],
            ),
        forall|c: StableJournalCollection| #[trigger]
            without_reputation_changes(journal).contains(c) ==> journal.contains(c) && !(c.entries@.len() == 1
                && c.entries@[0].log_type == LogType::ProviderReputationChange),
        journal.len() <= JOURNAL_CAPACITY ==> forall|i: int|
            0 <= i < journal.len() && !(journal[i].entries@.len() == 1 && journal[i].entries@[0].log_type
                == LogType::ProviderReputationChange) ==> #[trigger] last_n(
                without_reputation_changes(journal),
                JOURNAL_CAPACITY as nat,
            ).contains(journal[i]),
        last_n(without_reputation_changes(journal), JOURNAL_CAPACITY as nat).len() <= journal.len(),
{
    let pred = |c: StableJournalCollection| !is_reputation_change_spec(c);
    let f = without_reputation_changes(journal);
    assert forall|i: int|
        0 <= i < journal.len() && !(journal[i].entries@.len() == 1 && journal[i].entries@[0].log_type
            == LogType::ProviderReputationChange) implies #[trigger] f.contains(journal[i]) by {
        journal.lemma_filter_contains(pred, i);
    }
    assert forall|c: StableJournalCollection| #[trigger] f.contains(c) implies journal.contains(c) && !(
    c.entries@.len() == 1 && c.entries@[0].log_type == LogType::ProviderReputationChange) by {
        journal.lemma_filter_contains_rev(pred, c);
        let k = choose|k: int| 0 <= k < f.len() && f[k] == c;
        journal.lemma_filter_pred(pred, k);
    }
    #[allow(deprecated)]
    journal.filter_lemma(pred);
    if journal.len() <= JOURNAL_CAPACITY {
        assert(last_n(f, JOURNAL_CAPACITY as nat) == f);
    }
}

/// The logs of a strategy are its own: every collection returned belongs to
/// that strategy, none that belongs to no strategy or to another one is
/// returned, and with a depth that covers the journal every collection of the
/// strategy is returned.
pub proof fn lemma_strategy_logs_are_its_own(journal: Seq<StableJournalCollection>, depth: nat, strategy_key: u32)
    ensures
        forall|i: int|
            0 <= i < last_n(strategy_collections(journal, strategy_key), depth).len() ==> (#[trigger] last_n(
                strategy_collections(journal, strategy_key),
                depth,
            )[i]).strategy == Some(strategy_key),
        last_n(strategy_collections(journal, strategy_key), depth).len() <= depth,
        depth >= journal.len() ==> forall|i: int|
            0 <= i < journal.len() && journal[i].strategy == Some(strategy_key) ==> #[trigger] last_n(
                strategy_collections(journal, strategy_key),
                depth,
            ).contains(journal[i]),
{
    let pred = |c: StableJournalCollection| c.strategy == Some(strategy_key);
    let f = strategy_collections(journal, strategy_key);
    let r = last_n(f, depth);
    #[allow(deprecated)]
    journal.filter_lemma(pred);
    assert forall|i: int| 0 <= i < r.len() implies (#[trigger] r[i]).strategy == Some(strategy_key) by {
        let k = if f.len() > depth { f.len() - depth + i } else { i };
        assert(r[i] == f[k]);
        journal.lemma_filter_pred(pred, k);
    }
    if depth >= journal.len() {
        assert(r == f);
        assert forall|i: int| 0 <= i < journal.len() && journal[i].strategy == Some(strategy_key) implies #[trigger] r.contains(
            journal[i],
        ) by {
            journal.lemma_filter_contains(pred, i);
        }
    }
}

/// Adds a closed journal collection to the journal, as its most recent entry.
pub fn insert_journal_collection(journal: &mut Vec<StableJournalCollection>, entry: StableJournalCollection)
    ensures
        final(journal)@ == old(journal)@.push(entry),
{
    journal.push(entry);
}

} // verus!
