//! The core banking data source: the credit dataset, its generation and
//! loading, and its read-only listing with cutoff filtering, pages and
//! cursors.

use vstd::prelude::*;
use crate::clock::{parsed_iso_date, rfc3339_local_date, parse_iso_date, parse_rfc3339_date};
use crate::common::{FailureReply, SimulatorStats, failure_reply};
use crate::config::{CoreBankingConfig, FailureInjectionConfig, FailureType, LatencyConfig, Ratio};
use crate::credit::{
    CreditRecord, CreditView, NameCatalog, NamesView, generated, records_view, generate_from_stream, record_id_text,
    is_valid_clean, dataset_record,
};
use crate::random::{RngState, chacha8_key, seeded, from_thread_rng};
use crate::text::{
    decimal, decimal_string, parse_unsigned, parse_usize, str_eq, zero_pad, position_of, lemma_position_of,
    lemma_position_of_unique,
};

verus! {

// ============================================================================
// Dates, cutoffs and cursors
// ============================================================================

/// A calendar date.
#[derive(Clone, Copy, Debug, PartialEq, Eq, Structural)]
pub struct CalendarDate {
    pub year: i32,
    pub month: u32,
    pub day: u32,
}

/// Whether `a` comes before `b` in the calendar.
pub open spec fn date_before(a: CalendarDate, b: CalendarDate) -> bool {
    a.year < b.year || (a.year == b.year && (a.month < b.month || (a.month == b.month && a.day < b.day)))
}

/// Whether a date has a month from 1 to 12 and a day from 1 to 31.
pub open spec fn date_in_range(d: CalendarDate) -> bool {
    1 <= d.month <= 12 && 1 <= d.day <= 31
}

/// A day count that grows with the calendar: each year counted as 372
/// days and each month as 31, from day 0 of year 0.
pub open spec fn day_rank(d: CalendarDate) -> int {
    d.year * 372 + (d.month - 1) * 31 + (d.day - 1)
}

/// The order of dates is the order of the calendar: for dates with valid
/// months and days, one comes before another exactly when its day count is
/// smaller. So the order is strict and total (no date before itself, of two
/// different dates exactly one first, and transitive), a later month of the
/// same year always comes after, and a date lies in a window exactly when
/// its day count lies between those of the window's ends.
pub proof fn law_dates_follow_the_calendar(a: CalendarDate, b: CalendarDate, c: CalendarDate)
    requires
        date_in_range(a),
        date_in_range(b),
        date_in_range(c),
    ensures
        date_before(a, b) <==> day_rank(a) < day_rank(b),
        !date_before(a, a),
        a != b ==> (date_before(a, b) <==> !date_before(b, a)),
        date_before(a, b) && date_before(b, c) ==> date_before(a, c),
        a.year == b.year && a.month < b.month ==> date_before(a, b) && !date_before(b, a),
        a.year < b.year ==> date_before(a, b) && !date_before(b, a),
        spec_date_in_window(a, Some(b), Some(c)) <==> day_rank(b) <= day_rank(a) <= day_rank(c),
        spec_date_in_window(a, Some(b), None) <==> day_rank(b) <= day_rank(a),
        spec_date_in_window(a, None, Some(c)) <==> day_rank(a) <= day_rank(c),
        spec_date_in_window(a, None, None),
{
}

/// The date of a year, month and day.
pub open spec fn as_date(t: (i32, u32, u32)) -> CalendarDate {
    CalendarDate { year: t.0, month: t.1, day: t.2 }
}

/// Whether `a` comes before `b` in the calendar.
fn is_before(a: CalendarDate, b: CalendarDate) -> (r: bool)
    ensures
        r == date_before(a, b),
{
    a.year < b.year || (a.year == b.year && (a.month < b.month || (a.month == b.month && a.day < b.day)))
}

/// What an optional `YYYY-MM-DD` text reads as: no date when absent, an
/// error when it is not a date.
pub open spec fn spec_parse_date_opt(s: Option<String>) -> Result<Option<CalendarDate>, ()> {
    match s {
        None => Ok(None),
        Some(v) => match parsed_iso_date(v@) {
            Some(t) => Ok(Some(as_date(t))),
            None => Err(()),
        },
    }
}

/// Reads an optional `YYYY-MM-DD` text; the error is `invalid date format`.
pub fn parse_date_opt(s: &Option<String>) -> (r: Result<Option<CalendarDate>, &'static str>)
    ensures
        r matches Ok(d) ==> spec_parse_date_opt(*s) == Ok::<Option<CalendarDate>, ()>(d),
        r matches Err(e) ==> spec_parse_date_opt(*s) is Err && e@ == "invalid date format"@,
{
    match s {
        Some(v) => match parse_iso_date(v.as_str()) {
            Some((y, m, d)) => Ok(Some(CalendarDate { year: y, month: m, day: d })),
            None => Err("invalid date format"),
        },
        None => Ok(None),
    }
}

/// Whether a date lies in the inclusive window: not before `start` nor
/// after `end`, each when given.
pub open spec fn spec_date_in_window(d: CalendarDate, start: Option<CalendarDate>, end: Option<CalendarDate>) -> bool {
    &&& (start matches Some(s) ==> !date_before(d, s))
    &&& (end matches Some(e) ==> !date_before(e, d))
}

/// Whether a record updated at `last_updated` (RFC 3339) lies in the
/// inclusive window: its date is not before `start` nor after `end`; a
/// text that is not RFC 3339 is outside every window.
pub open spec fn spec_within_cutoff(last_updated: Seq<char>, start: Option<CalendarDate>, end: Option<CalendarDate>) -> bool {
    match rfc3339_local_date(last_updated) {
        None => false,
        Some(t) => spec_date_in_window(as_date(t), start, end),
    }
}

/// Whether a date lies in the inclusive window.
pub fn date_in_window(d: CalendarDate, start: Option<CalendarDate>, end: Option<CalendarDate>) -> (r: bool)
    ensures
        r == spec_date_in_window(d, start, end),
{
    if let Some(s) = start {
        if is_before(d, s) {
            return false;
        }
    }
    if let Some(e) = end {
        if is_before(e, d) {
            return false;
        }
    }
    true
}

/// Whether a record updated at `last_updated` lies in the inclusive window.
pub fn within_cutoff(last_updated: &str, start: Option<CalendarDate>, end: Option<CalendarDate>) -> (r: bool)
    ensures
        r == spec_within_cutoff(last_updated@, start, end),
{
    match parse_rfc3339_date(last_updated) {
        Some((y, m, dd)) => date_in_window(CalendarDate { year: y, month: m, day: dd }, start, end),
        None => false,
    }
}

/// The offset a cursor stands for: its number, or 0 when it is absent or
/// not a number.
pub open spec fn cursor_offset(cursor: Option<String>) -> nat {
    match cursor {
        Some(c) => match parse_unsigned(c@, usize::MAX as nat) {
            Some(v) => v,
            None => 0,
        },
        None => 0,
    }
}

/// The offset a cursor stands for (a simple numeric offset).
pub fn parse_cursor(cursor: &Option<String>) -> (r: usize)
    ensures
        r == cursor_offset(*cursor),
{
    match cursor {
        Some(c) => match parse_usize(c.as_str()) {
            Some(v) => v,
            None => 0,
        },
        None => 0,
    }
}

/// The cursor of the next page: the offset after the records returned,
/// when records remain.
pub fn next_cursor_if_any(current_offset: usize, returned: usize, total: usize) -> (r: Option<String>)
    ensures
        ({
            let next = if current_offset + returned > usize::MAX {
                usize::MAX as int
            } else {
                current_offset + returned
            };
            &&& r is Some <==> next < total
            &&& r matches Some(s) ==> s@ == decimal(next as nat)
        }),
{
    let next = current_offset.saturating_add(returned);
    if next < total {
        Some(decimal_string(next as u64))
    } else {
        None
    }
}

// ============================================================================
// Requests
// ============================================================================

/// Request parameters for credit listing.
#[derive(Debug)]
pub struct ListCreditsParams {
    pub page: Option<u32>,
    pub page_size: Option<u32>,
    /// Cursor offset for stable paging (optional). If present, `page` is ignored.
    pub cursor: Option<String>,
    /// Cutoff window (inclusive) for filtering by `last_updated` date.
    pub cutoff_start: Option<String>,
    pub cutoff_end: Option<String>,
    /// Mode: "normal" (default) or "stream"
    pub mode: Option<String>,
    /// Chunk size for streaming (number of records per flush)
    pub stream_chunk_size: Option<usize>,
}

/// Request parameters for generating credits (mutating).
#[derive(Debug)]
pub struct GenerateCreditsRequest {
    pub count: u32,
    pub dirty_ratio: Option<Ratio>,
    pub seed: Option<u64>,
    pub append: Option<bool>,
}

/// Request parameters for loading specific credits (mutating).
#[derive(Debug)]
pub struct LoadCreditsRequest {
    pub records: Vec<CreditRecord>,
    pub append: Option<bool>,
}

/// Request parameters for streaming credits (stateless generator). The
/// dirty ratio is held as the number of 53-bit draws that fall below it.
#[derive(Debug)]
pub struct StreamCreditsParams {
    pub count: Option<u32>,
    pub dirty_ratio: Option<u64>,
    pub seed: Option<u64>,
    pub batch_size: Option<u32>,
    pub delay_ms: Option<u64>,
}

/// Dynamic configuration update request.
#[derive(Debug)]
pub struct UpdateConfigRequest {
    pub dirty_ratio: Option<Ratio>,
    pub latency_ms: Option<u64>,
    pub failure_rate: Option<Ratio>,
}


// ============================================================================
// Simulator state
// ============================================================================

/// Internal state for the Core Banking simulator.
#[derive(Debug)]
pub struct CoreBankingState {
    pub config: CoreBankingConfig,
    /// The records, in the order their ids first came in
    pub records: Vec<CreditRecord>,
    pub stats: SimulatorStats,
    pub ready: bool,
    /// The seed the current dataset was generated with
    pub dataset_seed: Option<u64>,
    /// The dirty ratio the current dataset was generated with
    pub dataset_dirty_ratio: Ratio,
    /// The name lists records are generated from
    pub names: NameCatalog,
}

/// The ids of a list of records.
pub open spec fn record_ids(recs: Seq<CreditView>) -> Seq<Seq<char>> {
    recs.map_values(|r: CreditView| r.id)
}

/// The records after `r` is stored under its id: it replaces the record
/// with that id in place, or comes after the others.
pub open spec fn upsert(recs: Seq<CreditView>, r: CreditView) -> Seq<CreditView> {
    match position_of(record_ids(recs), r.id) {
        Some(i) => recs.update(i, r),
        None => recs.push(r),
    }
}

/// The records after the first `n` of `new` are stored one by one.
pub open spec fn upsert_all(recs: Seq<CreditView>, new: Seq<CreditView>, n: nat) -> Seq<CreditView>
    decreases n,
{
    if n == 0 {
        recs
    } else {
        upsert(upsert_all(recs, new, (n - 1) as nat), new[n - 1])
    }
}

/// The records among the first `n` that lie in the window.
pub open spec fn select_upto(recs: Seq<CreditView>, start: Option<CalendarDate>, end: Option<CalendarDate>, n: nat) -> Seq<
    CreditView,
>
    decreases n,
{
    if n == 0 {
        Seq::empty()
    } else {
        let prev = select_upto(recs, start, end, (n - 1) as nat);
        if spec_within_cutoff(recs[n - 1].last_updated, start, end) {
            prev.push(recs[n - 1])
        } else {
            prev
        }
    }
}

/// The records a listing looks at: all of them without a cutoff, else those
/// in the window.
pub open spec fn selected(recs: Seq<CreditView>, start: Option<CalendarDate>, end: Option<CalendarDate>) -> Seq<CreditView> {
    if start is None && end is None {
        recs
    } else {
        select_upto(recs, start, end, recs.len())
    }
}

/// At most `size` items of `s` from position `offset` on.
pub open spec fn window<T>(s: Seq<T>, offset: nat, size: nat) -> Seq<T> {
    if offset >= s.len() {
        Seq::empty()
    } else if offset + size <= s.len() {
        s.subrange(offset as int, (offset + size) as int)
    } else {
        s.subrange(offset as int, s.len() as int)
    }
}

/// The page size of a listing that is not streamed: the size asked for (100
/// by default, at least 1), at most the configured maximum.
pub open spec fn listing_page_size(params: ListCreditsParams, max_records: u32) -> u32 {
    let asked: u32 = match params.page_size {
        Some(s) => if s >= 1 {
            s
        } else {
            1
        },
        None => 100,
    };
    if asked <= max_records {
        asked
    } else {
        max_records
    }
}

/// The page number of a listing: 1 with a cursor, else the page asked for
/// (at least 1).
pub open spec fn listing_page(params: ListCreditsParams) -> u32 {
    if params.cursor is Some {
        1
    } else {
        match params.page {
            Some(p) => if p >= 1 {
                p
            } else {
                1
            },
            None => 1,
        }
    }
}

/// The offset of a listing: the cursor's when there is one, else where the
/// page starts.
pub open spec fn listing_offset(params: ListCreditsParams, page_size: int) -> int {
    if params.cursor is Some {
        cursor_offset(params.cursor) as int
    } else {
        (listing_page(params) - 1) * page_size
    }
}

/// The page size a listing asks for (100 by default, at least 1).
pub open spec fn asked_page_size(params: ListCreditsParams) -> u32 {
    match params.page_size {
        Some(s) => if s >= 1 {
            s
        } else {
            1
        },
        None => 100,
    }
}

/// Whether a listing is streamed: it asks for more than 100,000 records per
/// page, or for the stream mode.
pub open spec fn spec_is_stream_listing(params: ListCreditsParams) -> bool {
    asked_page_size(params) > 100_000 || (params.mode matches Some(m) && m@ == "stream"@)
}

/// One page of a credit listing.
#[derive(Debug)]
pub struct CreditPage {
    pub records: Vec<CreditRecord>,
    pub page: u32,
    pub page_size: u32,
    pub total_count: u64,
    pub offset: usize,
    pub next_cursor: Option<String>,
}

/// The outcome of a generation request.
#[derive(Debug)]
pub struct GenerationSummary {
    pub generated: u32,
    pub dirty_ratio: Ratio,
    pub seed: Option<u64>,
    pub total_records: usize,
}

/// Distinct record numbers give distinct ids.
pub proof fn lemma_record_ids_distinct(a: nat, b: nat)
    requires
        a != b,
    ensures
        record_id_text(a) != record_id_text(b),
{
    crate::text::lemma_zero_pad_decimal_injective(a, b, 10);
    let x = record_id_text(a);
    let y = record_id_text(b);
    reveal_strlit("CR");
    if x == y {
        assert(x.subrange(2, x.len() as int) =~= zero_pad(decimal(a), 10));
        assert(y.subrange(2, y.len() as int) =~= zero_pad(decimal(b), 10));
    }
}

impl CoreBankingState {
    /// Well-formedness: no two records share an id, and every name list has
    /// a name in it.
    pub open spec fn wf(self) -> bool {
        &&& record_ids(records_view(self.records@)).no_duplicates()
        &&& self.names.complete()
    }

    /// A fresh state with no records.
    pub fn new(config: CoreBankingConfig, names: NameCatalog) -> (r: Self)
        requires
            names.complete(),
        ensures
            r.config == config,
            r.records@.len() == 0,
            !r.ready,
            r.dataset_seed == config.seed,
            r.dataset_dirty_ratio == config.default_dirty_ratio,
            r.names == names,
            r.stats.is_zero(),
            r.wf(),
    {
        let seed = config.seed;
        let ratio = config.default_dirty_ratio;
        let r = CoreBankingState {
            config,
            records: Vec::new(),
            stats: SimulatorStats::default(),
            ready: false,
            dataset_seed: seed,
            dataset_dirty_ratio: ratio,
            names,
        };
        assert(record_ids(records_view(r.records@)) =~= Seq::<Seq<char>>::empty());
        r
    }

    /// Generate `count` records with ids from `start_id`: from the stream of
    /// `seed` when there is one, else from a stream keyed by the thread's
    /// generator. A record is made dirty when a draw falls below the ratio's
    /// threshold.
    pub fn generate_records(count: u32, dirty_ratio: Ratio, seed: Option<u64>, start_id: u64, names: &NameCatalog) -> (r: Vec<
        CreditRecord,
    >)
        requires
            names.complete(),
            start_id + count <= u64::MAX,
        ensures
            seed matches Some(s) ==> records_view(r@) == generated(
                chacha8_key(s),
                0,
                dirty_ratio.threshold,
                start_id as nat,
                names@,
                count as nat,
            ).0,
            exists|key: Seq<u8>|
                records_view(r@) == generated(key, 0, dirty_ratio.threshold, start_id as nat, names@, count as nat).0,
            r@.len() == count,
            forall|i: int| 0 <= i < count ==> (#[trigger] r@[i])@.id == record_id_text((start_id + i) as nat),
            forall|i: int|
                0 <= i < count ==> is_valid_clean((#[trigger] r@[i])@) || (r@[i]@.has_error == Some(true)
                    && dirty_ratio.threshold > 0),
    {
        let mut rng = match seed {
            Some(s) => seeded(s),
            None => from_thread_rng(),
        };
        let ghost key = rng.seed@;
        let r = generate_from_stream(&mut rng, count, dirty_ratio.threshold, start_id, names);
        assert(records_view(r@) == generated(key, 0, dirty_ratio.threshold, start_id as nat, names@, count as nat).0);
        r
    }
}


/// Storing records with distinct ids one by one into an empty store keeps
/// them all, in order.
pub proof fn lemma_upsert_all_distinct(new: Seq<CreditView>, n: nat)
    requires
        n <= new.len(),
        record_ids(new).no_duplicates(),
    ensures
        upsert_all(Seq::empty(), new, n) == new.take(n as int),
    decreases n,
{
    if n > 0 {
        lemma_upsert_all_distinct(new, (n - 1) as nat);
        let prev = new.take(n - 1);
        let ids = record_ids(prev);
        lemma_position_of(ids, new[n - 1].id);
        if let Some(i) = position_of(ids, new[n - 1].id) {
            assert(record_ids(new)[i] == record_ids(new)[n - 1]);
        }
        assert(prev.push(new[n - 1]) =~= new.take(n as int));
    }
}

/// The ids of records generated from consecutive numbers are distinct.
pub proof fn lemma_generated_ids_distinct(recs: Seq<CreditView>, start_id: nat)
    requires
        forall|i: int| 0 <= i < recs.len() ==> (#[trigger] recs[i]).id == record_id_text((start_id + i) as nat),
    ensures
        record_ids(recs).no_duplicates(),
{
    assert forall|i: int, j: int| 0 <= i < recs.len() && 0 <= j < recs.len() && i != j implies record_ids(recs)[i]
        != record_ids(recs)[j] by {
        lemma_record_ids_distinct((start_id + i) as nat, (start_id + j) as nat);
    }
}

impl CoreBankingState {
    /// The position of the record with id `id`.
    fn index_of(&self, id: &str) -> (r: Option<usize>)
        ensures
            r matches Some(i) ==> position_of(record_ids(records_view(self.records@)), id@) == Some(i as int) && i
                < self.records@.len(),
            r is None ==> position_of(record_ids(records_view(self.records@)), id@) is None,
    {
        let ghost ids = record_ids(records_view(self.records@));
        proof {
            lemma_position_of(ids, id@);
        }
        let mut i: usize = 0;
        assert(ids.skip(0) =~= ids);
        while i < self.records.len()
            invariant
                i <= self.records.len(),
                ids == record_ids(records_view(self.records@)),
                position_of(ids, id@) == (match position_of(ids.skip(i as int), id@) {
                    Some(j) => Some(j + i),
                    None => None::<int>,
                }),
            decreases self.records.len() - i,
        {
            assert(ids.skip(i as int)[0] == ids[i as int]);
            assert(ids.skip(i as int).drop_first() =~= ids.skip(i + 1));
            if str_eq(self.records[i].id.as_str(), id) {
                return Some(i);
            }
            i = i + 1;
        }
        None
    }

    /// The record with id `id`.
    pub fn get_credit(&self, id: &str) -> (r: Option<&CreditRecord>)
        ensures
            r matches Some(rec) ==> position_of(record_ids(records_view(self.records@)), id@) matches Some(i)
                && rec@ == records_view(self.records@)[i],
            r is None ==> position_of(record_ids(records_view(self.records@)), id@) is None,
            r matches Some(rec) ==> lookup_record(records_view(self.records@), id@) == Some(rec@),
            r is None ==> lookup_record(records_view(self.records@), id@) is None,
    {
        match self.index_of(id) {
            Some(i) => Some(&self.records[i]),
            None => None,
        }
    }

    /// Store a record under its id, replacing the one with that id.
    pub fn insert_record(&mut self, record: CreditRecord)
        requires
            old(self).wf(),
        ensures
            records_view(final(self).records@) == upsert(records_view(old(self).records@), record@),
            final(self).config == old(self).config,
            final(self).stats == old(self).stats,
            final(self).ready == old(self).ready,
            final(self).dataset_seed == old(self).dataset_seed,
            final(self).dataset_dirty_ratio == old(self).dataset_dirty_ratio,
            final(self).names == old(self).names,
            final(self).wf(),
    {
        let ghost before = records_view(self.records@);
        let ghost ids = record_ids(before);
        let ghost rv = record@;
        proof {
            lemma_position_of(ids, rv.id);
        }
        match self.index_of(record.id.as_str()) {
            Some(i) => {
                self.records.set(i, record);
                proof {
                    assert(records_view(self.records@) =~= before.update(i as int, rv));
                    assert(record_ids(records_view(self.records@)) =~= ids);
                }
            },
            None => {
                self.records.push(record);
                proof {
                    let post = record_ids(records_view(self.records@));
                    assert(records_view(self.records@) =~= before.push(rv));
                    assert(post =~= ids.push(rv.id));
                    assert forall|a: int, b: int| 0 <= a < post.len() && 0 <= b < post.len() && a != b implies post[a]
                        != post[b] by {
                        if a < ids.len() && b < ids.len() {
                            assert(post[a] == ids[a] && post[b] == ids[b]);
                        } else if a < ids.len() {
                            assert(post[a] == ids[a]);
                        } else {
                            assert(post[b] == ids[b]);
                        }
                    }
                }
            },
        }
    }

    /// Store records one by one under their ids.
    pub fn insert_records(&mut self, records: Vec<CreditRecord>)
        requires
            old(self).wf(),
        ensures
            records_view(final(self).records@) == upsert_all(
                records_view(old(self).records@),
                records_view(records@),
                records@.len() as nat,
            ),
            final(self).config == old(self).config,
            final(self).stats == old(self).stats,
            final(self).ready == old(self).ready,
            final(self).dataset_seed == old(self).dataset_seed,
            final(self).dataset_dirty_ratio == old(self).dataset_dirty_ratio,
            final(self).names == old(self).names,
            final(self).wf(),
    {
        let ghost start = records_view(self.records@);
        let ghost new = records_view(records@);
        let n = records.len();
        let mut i: usize = 0;
        while i < n
            invariant
                i <= n,
                n == new.len(),
                new == records_view(records@),
                records_view(self.records@) == upsert_all(start, new, i as nat),
                self.wf(),
                self.config == old(self).config,
                self.stats == old(self).stats,
                self.ready == old(self).ready,
                self.dataset_seed == old(self).dataset_seed,
                self.dataset_dirty_ratio == old(self).dataset_dirty_ratio,
                self.names == old(self).names,
            decreases n - i,
        {
            let record = records[i].clone();
            assert(record@ == new[i as int]);
            self.insert_record(record);
            i = i + 1;
        }
    }
}


/// Whether a listing is streamed.
pub fn is_stream_listing(params: &ListCreditsParams) -> (r: bool)
    ensures
        r == spec_is_stream_listing(*params),
{
    let asked: u32 = match params.page_size {
        Some(s) => if s >= 1 {
            s
        } else {
            1
        },
        None => 100,
    };
    let stream_mode = match &params.mode {
        Some(m) => str_eq(m.as_str(), "stream"),
        None => false,
    };
    asked > 100_000 || stream_mode
}

/// The number of records per flush of a streamed listing (1000 by default,
/// at least 1).
pub fn stream_chunk_size(params: &ListCreditsParams) -> (r: usize)
    ensures
        r == match params.stream_chunk_size {
            Some(c) => if c >= 1 {
                c
            } else {
                1
            },
            None => 1000,
        },
{
    match params.stream_chunk_size {
        Some(c) => if c >= 1 {
            c
        } else {
            1
        },
        None => 1000,
    }
}

impl CoreBankingState {
    /// The positions of the records a listing looks at, in order.
    fn selected_positions(&self, start: Option<CalendarDate>, end: Option<CalendarDate>) -> (r: Vec<usize>)
        ensures
            r@.len() == selected(records_view(self.records@), start, end).len(),
            forall|k: int|
                0 <= k < r@.len() ==> (#[trigger] r@[k]) < self.records@.len() && records_view(self.records@)[r@[k] as int]
                    == selected(records_view(self.records@), start, end)[k],
    {
        let ghost recs = records_view(self.records@);
        let filtering = start.is_some() || end.is_some();
        let mut out: Vec<usize> = Vec::new();
        let mut i: usize = 0;
        while i < self.records.len()
            invariant
                i <= self.records.len(),
                recs == records_view(self.records@),
                filtering == !(start is None && end is None),
                filtering ==> out@.len() == select_upto(recs, start, end, i as nat).len(),
                !filtering ==> out@.len() == i,
                forall|k: int|
                    0 <= k < out@.len() ==> (#[trigger] out@[k]) < i && (filtering ==> recs[out@[k] as int]
                        == select_upto(recs, start, end, i as nat)[k]) && (!filtering ==> out@[k] == k),
            decreases self.records.len() - i,
        {
            let keep = if filtering {
                within_cutoff(self.records[i].last_updated.as_str(), start, end)
            } else {
                true
            };
            assert(recs[i as int] == self.records@[i as int]@);
            if keep {
                out.push(i);
            }
            i = i + 1;
        }
        out
    }

    /// How many records a listing with this window looks at.
    pub fn count_credits(&self, start: Option<CalendarDate>, end: Option<CalendarDate>) -> (r: usize)
        ensures
            r == selected(records_view(self.records@), start, end).len(),
    {
        let p = self.selected_positions(start, end);
        p.len()
    }

    /// The records at positions `offset` up to `offset + size` of a listing.
    fn window_of(&self, start: Option<CalendarDate>, end: Option<CalendarDate>, offset: usize, size: usize) -> (r: (
        Vec<CreditRecord>,
        usize,
    ))
        ensures
            records_view(r.0@) == window(selected(records_view(self.records@), start, end), offset as nat, size as nat),
            r.1 == selected(records_view(self.records@), start, end).len(),
    {
        let ghost sel = selected(records_view(self.records@), start, end);
        let positions = self.selected_positions(start, end);
        let total = positions.len();
        let mut out: Vec<CreditRecord> = Vec::new();
        if offset >= total {
            assert(records_view(out@) =~= window(sel, offset as nat, size as nat));
            return (out, total);
        }
        let end_at: usize = if total - offset >= size {
            offset + size
        } else {
            total
        };
        let mut k: usize = offset;
        while k < end_at
            invariant
                offset <= k <= end_at <= total,
                total == sel.len(),
                sel == selected(records_view(self.records@), start, end),
                positions@.len() == total,
                forall|m: int|
                    0 <= m < positions@.len() ==> (#[trigger] positions@[m]) < self.records@.len() && records_view(
                        self.records@,
                    )[positions@[m] as int] == sel[m],
                records_view(out@) == sel.subrange(offset as int, k as int),
            decreases end_at - k,
        {
            let p = positions[k];
            let rec = self.records[p].clone();
            assert(rec@ == sel[k as int]);
            let ghost before = records_view(out@);
            out.push(rec);
            assert(records_view(out@) =~= before.push(sel[k as int]));
            k = k + 1;
            assert(records_view(out@) =~= sel.subrange(offset as int, k as int));
        }
        (out, total)
    }

    /// One page of a listing that is not streamed: the page size asked for
    /// (at most the configured maximum), from the cursor's offset or where the
    /// page starts, with the cursor of the next page when records remain.
    pub fn list_page(&self, params: &ListCreditsParams, start: Option<CalendarDate>, end: Option<CalendarDate>) -> (r:
        CreditPage)
        requires
            params.cursor is None ==> listing_offset(
                *params,
                listing_page_size(*params, self.config.max_records_per_request) as int,
            ) <= u32::MAX,
        ensures
            ({
                let size = listing_page_size(*params, self.config.max_records_per_request);
                let sel = selected(records_view(self.records@), start, end);
                &&& r.page == listing_page(*params)
                &&& r.page_size == size
                &&& r.offset == listing_offset(*params, size as int)
                &&& r.total_count == sel.len()
                &&& records_view(r.records@) == window(sel, r.offset as nat, size as nat)
                &&& r.next_cursor is Some <==> r.offset + r.records@.len() < sel.len()
                &&& r.next_cursor matches Some(c) ==> c@ == decimal((r.offset + r.records@.len()) as nat)
            }),
    {
        let asked: u32 = match params.page_size {
            Some(s) => if s >= 1 {
                s
            } else {
                1
            },
            None => 100,
        };
        let max = self.config.max_records_per_request;
        let page_size: u32 = if asked <= max {
            asked
        } else {
            max
        };
        let (offset, page): (usize, u32) = match &params.cursor {
            Some(_) => (parse_cursor(&params.cursor), 1),
            None => {
                let page: u32 = match params.page {
                    Some(p) => if p >= 1 {
                        p
                    } else {
                        1
                    },
                    None => 1,
                };
                (((page - 1) * page_size) as usize, page)
            },
        };
        let (records, total) = self.window_of(start, end, offset, page_size as usize);
        proof {
            let sel = selected(records_view(self.records@), start, end);
            assert(records_view(records@).len() == records@.len());
            if offset < total {
                assert(offset + records@.len() <= total);
            }
        }
        let next_cursor = next_cursor_if_any(offset, records.len(), total);
        CreditPage { records, page, page_size, total_count: total as u64, offset, next_cursor }
    }

    /// The records of a streamed listing: the page size asked for (not
    /// capped), from the cursor's offset or where the page starts.
    pub fn stream_page(&self, params: &ListCreditsParams, start: Option<CalendarDate>, end: Option<CalendarDate>) -> (r: Vec<
        CreditRecord,
    >)
        requires
            params.cursor is None ==> listing_offset(*params, asked_page_size(*params) as int) <= usize::MAX,
        ensures
            records_view(r@) == window(
                selected(records_view(self.records@), start, end),
                listing_offset(*params, asked_page_size(*params) as int) as nat,
                asked_page_size(*params) as nat,
            ),
    {
        let asked: u32 = match params.page_size {
            Some(s) => if s >= 1 {
                s
            } else {
                1
            },
            None => 100,
        };
        let offset: usize = match &params.cursor {
            Some(_) => parse_cursor(&params.cursor),
            None => {
                let page: u32 = match params.page {
                    Some(p) => if p >= 1 {
                        p
                    } else {
                        1
                    },
                    None => 1,
                };
                proof {
                    assert((page - 1) * asked >= 0) by (nonlinear_arith)
                        requires
                            page >= 1,
                    ;
                }
                ((page - 1) as usize) * (asked as usize)
            },
        };
        let (records, _) = self.window_of(start, end, offset, asked as usize);
        records
    }
}


impl CoreBankingState {
    /// Drops every record.
    fn clear_records(&mut self)
        requires
            old(self).wf(),
        ensures
            final(self).records@.len() == 0,
            final(self).config == old(self).config,
            final(self).stats == old(self).stats,
            final(self).ready == old(self).ready,
            final(self).dataset_seed == old(self).dataset_seed,
            final(self).dataset_dirty_ratio == old(self).dataset_dirty_ratio,
            final(self).names == old(self).names,
            final(self).wf(),
    {
        self.records.clear();
        assert(record_ids(records_view(self.records@)) =~= Seq::<Seq<char>>::empty());
    }

    /// Generate a dataset (the only mutating listing operation): at most the
    /// configured maximum of records, with the requested or the default dirty
    /// ratio, replacing the dataset or appended to it with ids counting on
    /// from the number of records already there.
    pub fn generate_credits(&mut self, request: &GenerateCreditsRequest) -> (r: GenerationSummary)
        requires
            old(self).wf(),
            old(self).records@.len() + request.count <= u64::MAX,
        ensures
            ({
                let count: u32 = if request.count <= old(self).config.max_records_per_request {
                    request.count
                } else {
                    old(self).config.max_records_per_request
                };
                let ratio = match request.dirty_ratio {
                    Some(d) => d,
                    None => old(self).config.default_dirty_ratio,
                };
                let append = request.append == Some(true);
                let start_id: nat = if append {
                    old(self).records@.len()
                } else {
                    0
                };
                &&& r.generated == count
                &&& r.dirty_ratio == ratio
                &&& r.seed == request.seed
                &&& r.total_records == final(self).records@.len()
                &&& (append ==> exists|key: Seq<u8>|
                    #![trigger generated(key, 0, r.dirty_ratio.threshold, old(self).records@.len(), old(self).names@, r.generated as nat)]
                    {
                        let new = generated(
                            key,
                            0,
                            r.dirty_ratio.threshold,
                            old(self).records@.len(),
                            old(self).names@,
                            r.generated as nat,
                        ).0;
                        &&& (request.seed matches Some(s) ==> key == chacha8_key(s))
                        &&& new.len() == count
                        &&& records_view(final(self).records@) == upsert_all(
                            records_view(old(self).records@),
                            new,
                            count as nat,
                        )
                    })
                &&& (!append ==> exists|key: Seq<u8>|
                    #![trigger generated(key, 0, r.dirty_ratio.threshold, 0, old(self).names@, r.generated as nat)]
                    {
                        let new = generated(key, 0, r.dirty_ratio.threshold, 0, old(self).names@, r.generated as nat).0;
                        &&& (request.seed matches Some(s) ==> key == chacha8_key(s))
                        &&& new.len() == count
                        &&& records_view(final(self).records@) == new
                    })
            }),
            final(self).config == old(self).config,
            final(self).stats == old(self).stats,
            final(self).ready == old(self).ready,
            request.append == Some(true) ==> final(self).dataset_seed == old(self).dataset_seed
                && final(self).dataset_dirty_ratio == old(self).dataset_dirty_ratio,
            request.append != Some(true) ==> final(self).dataset_seed == request.seed
                && final(self).dataset_dirty_ratio == r.dirty_ratio,
            final(self).names == old(self).names,
            final(self).wf(),
    {
        let max = self.config.max_records_per_request;
        let count: u32 = if request.count <= max {
            request.count
        } else {
            max
        };
        let ratio = match request.dirty_ratio {
            Some(d) => d,
            None => self.config.default_dirty_ratio,
        };
        let append = match request.append {
            Some(a) => a,
            None => false,
        };
        let start_id: u64 = if append {
            self.records.len() as u64
        } else {
            0
        };
        let new_records = Self::generate_records(count, ratio, request.seed, start_id, &self.names);
        let ghost new = records_view(new_records@);
        let ghost key = match request.seed {
            Some(s) => chacha8_key(s),
            None => choose|key: Seq<u8>|
                new == generated(key, 0, ratio.threshold, start_id as nat, self.names@, count as nat).0,
        };
        proof {
            assert(new == generated(key, 0, ratio.threshold, start_id as nat, self.names@, count as nat).0);
            lemma_generated_ids_distinct(new, start_id as nat);
            lemma_upsert_all_distinct(new, count as nat);
            assert(new.take(count as int) =~= new);
        }
        if !append {
            self.clear_records();
            assert(records_view(self.records@) =~= Seq::<CreditView>::empty());
        }
        self.insert_records(new_records);
        if !append {
            self.dataset_seed = request.seed;
            self.dataset_dirty_ratio = ratio;
        }
        if append {
            assert(generated(key, 0, ratio.threshold, old(self).records@.len(), old(self).names@, count as nat).0 == new);
        } else {
            assert(generated(key, 0, ratio.threshold, 0, old(self).names@, count as nat).0 == new);
        }
        let r = GenerationSummary {
            generated: count,
            dirty_ratio: ratio,
            seed: request.seed,
            total_records: self.records.len(),
        };
        // The key chosen above is the witness the postcondition asks for.
        assert(r.dirty_ratio.threshold == ratio.threshold && r.generated as nat == count as nat);
        r
    }

    /// Load specific records, replacing the dataset or added to it; answers
    /// how many were loaded and how many records there are now.
    pub fn load_credits(&mut self, request: LoadCreditsRequest) -> (r: (usize, usize))
        requires
            old(self).wf(),
        ensures
            r.0 == request.records@.len(),
            r.1 == final(self).records@.len(),
            records_view(final(self).records@) == upsert_all(
                if request.append == Some(true) {
                    records_view(old(self).records@)
                } else {
                    Seq::empty()
                },
                records_view(request.records@),
                request.records@.len() as nat,
            ),
            final(self).config == old(self).config,
            final(self).stats == old(self).stats,
            final(self).ready == old(self).ready,
            final(self).names == old(self).names,
            final(self).dataset_seed == old(self).dataset_seed,
            final(self).dataset_dirty_ratio == old(self).dataset_dirty_ratio,
            final(self).wf(),
    {
        let append = match request.append {
            Some(a) => a,
            None => false,
        };
        let count = request.records.len();
        if !append {
            self.clear_records();
            assert(records_view(self.records@) =~= Seq::<CreditView>::empty());
        }
        self.insert_records(request.records);
        (count, self.records.len())
    }

    /// Replace the dataset with the configured default one.
    fn regenerate_default(&mut self)
        requires
            old(self).wf(),
        ensures
            exists|key: Seq<u8>|
                {
                    &&& (old(self).config.seed matches Some(s) ==> key == chacha8_key(s))
                    &&& records_view(final(self).records@) == generated(
                        key,
                        0,
                        old(self).config.default_dirty_ratio.threshold,
                        0,
                        old(self).names@,
                        old(self).config.default_record_count as nat,
                    ).0
                },
            final(self).dataset_seed == old(self).config.seed,
            final(self).dataset_dirty_ratio == old(self).config.default_dirty_ratio,
            final(self).config == old(self).config,
            final(self).stats == old(self).stats,
            final(self).ready == old(self).ready,
            final(self).names == old(self).names,
            final(self).wf(),
    {
        let count = self.config.default_record_count;
        let ratio = self.config.default_dirty_ratio;
        let seed = self.config.seed;
        let mut rng = match seed {
            Some(s) => seeded(s),
            None => from_thread_rng(),
        };
        let ghost key = rng.seed@;
        let new_records = generate_from_stream(&mut rng, count, ratio.threshold, 0, &self.names);
        let ghost new = records_view(new_records@);
        proof {
            lemma_generated_ids_distinct(new, 0);
            lemma_upsert_all_distinct(new, count as nat);
            assert(new.take(count as int) =~= new);
        }
        self.clear_records();
        assert(records_view(self.records@) =~= Seq::<CreditView>::empty());
        self.insert_records(new_records);
        self.dataset_seed = seed;
        self.dataset_dirty_ratio = ratio;
    }

    /// Start serving: the default dataset is generated and the state is ready.
    pub fn start(&mut self)
        requires
            old(self).wf(),
        ensures
            exists|key: Seq<u8>|
                {
                    &&& (old(self).config.seed matches Some(s) ==> key == chacha8_key(s))
                    &&& records_view(final(self).records@) == generated(
                        key,
                        0,
                        old(self).config.default_dirty_ratio.threshold,
                        0,
                        old(self).names@,
                        old(self).config.default_record_count as nat,
                    ).0
                },
            final(self).ready,
            final(self).dataset_seed == old(self).config.seed,
            final(self).dataset_dirty_ratio == old(self).config.default_dirty_ratio,
            final(self).config == old(self).config,
            final(self).stats == old(self).stats,
            final(self).names == old(self).names,
            final(self).wf(),
    {
        self.regenerate_default();
        self.ready = true;
    }

    /// Reset: statistics start over and the default dataset is generated
    /// again.
    pub fn reset(&mut self)
        requires
            old(self).wf(),
        ensures
            exists|key: Seq<u8>|
                {
                    &&& (old(self).config.seed matches Some(s) ==> key == chacha8_key(s))
                    &&& records_view(final(self).records@) == generated(
                        key,
                        0,
                        old(self).config.default_dirty_ratio.threshold,
                        0,
                        old(self).names@,
                        old(self).config.default_record_count as nat,
                    ).0
                },
            final(self).stats.is_zero(),
            final(self).dataset_seed == old(self).config.seed,
            final(self).dataset_dirty_ratio == old(self).config.default_dirty_ratio,
            final(self).config == old(self).config,
            final(self).ready == old(self).ready,
            final(self).names == old(self).names,
            final(self).wf(),
    {
        self.stats = SimulatorStats::default();
        self.regenerate_default();
    }

    /// Update the configuration: the default dirty ratio, the latency (on
    /// when positive, a tenth of it as jitter) and the failure rate (failure
    /// injection on when positive).
    pub fn update_config(&mut self, request: &UpdateConfigRequest)
        ensures
            final(self).config == (CoreBankingConfig {
                default_dirty_ratio: match request.dirty_ratio {
                    Some(d) => d,
                    None => old(self).config.default_dirty_ratio,
                },
                latency: match request.latency_ms {
                    Some(ms) => LatencyConfig { enabled: ms > 0, base_ms: ms, jitter_ms: ms / 10, percentiles: None },
                    None => old(self).config.latency,
                },
                failure_injection: match request.failure_rate {
                    Some(f) => FailureInjectionConfig {
                        enabled: f.threshold > 0,
                        failure_rate: f,
                        failure_types: old(self).config.failure_injection.failure_types,
                    },
                    None => old(self).config.failure_injection,
                },
                ..old(self).config
            }),
            final(self).records == old(self).records,
            final(self).names == old(self).names,
            final(self).stats == old(self).stats,
            final(self).ready == old(self).ready,
            final(self).dataset_seed == old(self).dataset_seed,
            final(self).dataset_dirty_ratio == old(self).dataset_dirty_ratio,
    {
        if let Some(d) = request.dirty_ratio {
            self.config.default_dirty_ratio = d;
        }
        if let Some(ms) = request.latency_ms {
            self.config.latency = LatencyConfig::from_update(ms);
        }
        if let Some(f) = request.failure_rate {
            self.config.failure_injection.enabled = f.threshold > 0;
            self.config.failure_injection.failure_rate = f;
        }
    }
}

/// Deterministic generation: two datasets generated from the same seed, with
/// the same count, dirty ratio, first id and name lists, are the same.
pub proof fn law_seeded_generation_is_deterministic(
    seed: u64,
    threshold: u64,
    start_id: nat,
    names: NamesView,
    count: nat,
    first: Seq<CreditView>,
    second: Seq<CreditView>,
)
    requires
        first == generated(chacha8_key(seed), 0, threshold, start_id, names, count).0,
        second == generated(chacha8_key(seed), 0, threshold, start_id, names, count).0,
    ensures
        first == second,
{
}

/// A dataset generated with a zero dirty ratio holds only valid clean
/// records, and the ids of generated records (`CR` and consecutive numbers
/// padded to ten digits) are all distinct.
pub proof fn law_clean_dataset_is_valid(recs: Seq<CreditView>, start_id: nat, threshold: u64)
    requires
        forall|i: int| 0 <= i < recs.len() ==> (#[trigger] recs[i]).id == record_id_text((start_id + i) as nat),
        forall|i: int|
            0 <= i < recs.len() ==> is_valid_clean(#[trigger] recs[i]) || (recs[i].has_error == Some(true)
                && threshold > 0),
        threshold == 0,
    ensures
        record_ids(recs).no_duplicates(),
        forall|i: int| 0 <= i < recs.len() ==> is_valid_clean(#[trigger] recs[i]),
{
    lemma_generated_ids_distinct(recs, start_id);
}


/// A dataset generated with the largest dirty ratio (certainty) holds only
/// dirty records.
pub proof fn law_full_ratio_makes_every_record_dirty(key: Seq<u8>, pos: u128, start_id: nat, names: NamesView, n: nat)
    ensures
        generated(key, pos, u64::MAX, start_id, names, n).0.len() == n,
        forall|i: int|
            0 <= i < n ==> (#[trigger] generated(key, pos, u64::MAX, start_id, names, n).0[i]).has_error == Some(true),
    decreases n,
{
    if n > 0 {
        law_full_ratio_makes_every_record_dirty(key, pos, start_id, names, (n - 1) as nat);
        let prev = generated(key, pos, u64::MAX, start_id, names, (n - 1) as nat);
        let rec = dataset_record(key, prev.1, (start_id + n - 1) as u64, u64::MAX, names);
        let all = generated(key, pos, u64::MAX, start_id, names, n).0;
        assert(rec.0.has_error == Some(true));
        assert forall|i: int| 0 <= i < n implies (#[trigger] all[i]).has_error == Some(true) by {
            if i < n - 1 {
                assert(all[i] == prev.0[i]);
            }
        }
    }
}

/// The record a lookup of `id` finds: the first one with that id.
pub open spec fn lookup_record(recs: Seq<CreditView>, id: Seq<char>) -> Option<CreditView> {
    match position_of(record_ids(recs), id) {
        Some(i) => Some(recs[i]),
        None => None,
    }
}

/// Read after write: a record stored under its id (added, or replacing the
/// record with that id) is what a lookup of the id finds afterwards, and a
/// lookup of any other id finds what it found before.
pub proof fn law_stored_record_is_found(recs: Seq<CreditView>, r: CreditView, other: Seq<char>)
    requires
        other != r.id,
    ensures
        lookup_record(upsert(recs, r), r.id) == Some(r),
        lookup_record(upsert(recs, r), other) == lookup_record(recs, other),
{
    let ids = record_ids(recs);
    let post = upsert(recs, r);
    let pids = record_ids(post);
    lemma_position_of(ids, r.id);
    lemma_position_of(ids, other);
    match position_of(ids, r.id) {
        Some(i) => {
            assert(pids =~= ids.update(i, r.id));
            assert(pids =~= ids);
        },
        None => {
            assert(pids =~= ids.push(r.id));
            lemma_position_of(pids, r.id);
            assert(pids[ids.len() as int] == r.id);
            lemma_position_of(pids, other);
            match position_of(ids, other) {
                Some(k) => {
                    assert(pids[k] == ids[k]);
                },
                None => {},
            }
            match position_of(pids, other) {
                Some(k) => {
                    assert(k < ids.len());
                    assert(pids[k] == ids[k]);
                },
                None => {},
            }
        },
    }
}

/// The first `k` pages of `size` items of a listing, one after another.
pub open spec fn pages_joined<T>(sel: Seq<T>, size: nat, k: nat) -> Seq<T>
    decreases k,
{
    if k == 0 {
        Seq::empty()
    } else {
        pages_joined(sel, size, (k - 1) as nat) + window(sel, ((k - 1) * size) as nat, size)
    }
}

/// The first `k` pages of a listing, joined, are its first `k * size` items.
proof fn lemma_pages_joined<T>(sel: Seq<T>, size: nat, k: nat)
    ensures
        pages_joined(sel, size, k) == sel.take(if k * size <= sel.len() { (k * size) as int } else { sel.len() as int }),
    decreases k,
{
    if k == 0 {
        assert(sel.take(0) =~= Seq::<T>::empty());
    } else {
        lemma_pages_joined(sel, size, (k - 1) as nat);
        let a: int = (k - 1) * size;
        assert(a + size == k * size) by (nonlinear_arith)
            requires
                a == (k - 1) * size,
                k >= 1,
        ;
        assert(a >= 0) by (nonlinear_arith)
            requires
                a == (k - 1) * size,
                k >= 1,
        ;
        let prev = pages_joined(sel, size, (k - 1) as nat);
        let page = window(sel, a as nat, size);
        if a >= sel.len() {
            assert(prev + page =~= prev);
        } else if a + size <= sel.len() {
            assert(prev + page =~= sel.take((k * size) as int));
        } else {
            assert(prev + page =~= sel.take(sel.len() as int));
        }
    }
}

/// The pages of a listing (`size` items each, the last one possibly
/// shorter), numbered from 1 up to the page count the metadata gives,
/// cover it: joined one after another they are the listing, so no item is
/// on two pages and none is on none.
pub proof fn law_pages_cover_listing<T>(sel: Seq<T>, size: nat)
    requires
        size >= 1,
    ensures
        pages_joined(sel, size, ((sel.len() + size - 1) / (size as int)) as nat) == sel,
{
    let n: int = sel.len() + size - 1;
    let k: int = n / (size as int);
    vstd::arithmetic::div_mod::lemma_fundamental_div_mod(n as int, size as int);
    vstd::arithmetic::div_mod::lemma_mod_bound(n as int, size as int);
    assert(k >= 0) by (nonlinear_arith)
        requires
            n >= 0,
            size >= 1,
            k == n / (size as int),
    ;
    assert(k * size >= sel.len()) by (nonlinear_arith)
        requires
            n == size * k + n % (size as int),
            n % (size as int) < size,
            n == sel.len() + size - 1,
    ;
    lemma_pages_joined(sel, size, k as nat);
    assert(sel.take(sel.len() as int) =~= sel);
}

/// The last record with id `id` among the first `n` of `new`.
pub open spec fn last_with_id(new: Seq<CreditView>, id: Seq<char>, n: nat) -> Option<CreditView>
    decreases n,
{
    if n == 0 {
        None
    } else if new[n - 1].id == id {
        Some(new[n - 1])
    } else {
        last_with_id(new, id, (n - 1) as nat)
    }
}

/// Records stored one after another: a lookup of an id finds the last of
/// them with that id (the last one wins), and a lookup of an id none of them
/// has finds what it found before.
pub proof fn law_last_stored_record_wins(recs: Seq<CreditView>, new: Seq<CreditView>, n: nat, id: Seq<char>)
    ensures
        lookup_record(upsert_all(recs, new, n), id) == match last_with_id(new, id, n) {
            Some(r) => Some(r),
            None => lookup_record(recs, id),
        },
    decreases n,
{
    if n > 0 {
        law_last_stored_record_wins(recs, new, (n - 1) as nat, id);
        let prev = upsert_all(recs, new, (n - 1) as nat);
        if new[n - 1].id == id {
            reveal_strlit(".");
            assert((id + "."@).len() != new[n - 1].id.len());
            law_stored_record_is_found(prev, new[n - 1], id + "."@);
        } else {
            law_stored_record_is_found(prev, new[n - 1], id);
        }
    }
}

/// Storing a record keeps the ids distinct.
proof fn lemma_upsert_distinct(recs: Seq<CreditView>, r: CreditView)
    requires
        record_ids(recs).no_duplicates(),
    ensures
        record_ids(upsert(recs, r)).no_duplicates(),
{
    let ids = record_ids(recs);
    let pids = record_ids(upsert(recs, r));
    lemma_position_of(ids, r.id);
    match position_of(ids, r.id) {
        Some(i) => {
            assert(pids =~= ids.update(i, r.id));
        },
        None => {
            assert(pids =~= ids.push(r.id));
            assert forall|a: int, b: int| 0 <= a < pids.len() && 0 <= b < pids.len() && a != b implies pids[a]
                != pids[b] by {
                if a < ids.len() && b < ids.len() {
                    assert(pids[a] == ids[a] && pids[b] == ids[b]);
                }
            }
        },
    }
}

/// Storing records one after another keeps the ids distinct.
proof fn lemma_upsert_all_keeps_distinct(recs: Seq<CreditView>, new: Seq<CreditView>, n: nat)
    requires
        record_ids(recs).no_duplicates(),
    ensures
        record_ids(upsert_all(recs, new, n)).no_duplicates(),
    decreases n,
{
    if n > 0 {
        lemma_upsert_all_keeps_distinct(recs, new, (n - 1) as nat);
        lemma_upsert_distinct(upsert_all(recs, new, (n - 1) as nat), new[n - 1]);
    }
}

/// A record among the first `n` has a last record with its id.
proof fn lemma_last_with_id_found(new: Seq<CreditView>, k: int, n: nat)
    requires
        0 <= k < n,
    ensures
        last_with_id(new, new[k].id, n) is Some,
    decreases n,
{
    if n - 1 != k && new[n - 1].id != new[k].id {
        lemma_last_with_id_found(new, k, (n - 1) as nat);
    }
}

/// Loading records in place of the dataset leaves exactly one record per
/// loaded id and nothing else: each is the last loaded record with its id.
/// When the loaded ids are distinct, the dataset is the loaded records in
/// their order.
pub proof fn law_replacing_load(new: Seq<CreditView>)
    ensures
        ({
            let after = upsert_all(Seq::empty(), new, new.len());
            &&& record_ids(after).no_duplicates()
            &&& forall|i: int|
                0 <= i < after.len() ==> last_with_id(new, (#[trigger] after[i]).id, new.len()) == Some(after[i])
            &&& forall|k: int| 0 <= k < new.len() ==> record_ids(after).contains(#[trigger] new[k].id)
            &&& record_ids(new).no_duplicates() ==> after == new
        }),
{
    let n = new.len();
    let after = upsert_all(Seq::empty(), new, n);
    let ids = record_ids(after);
    assert(record_ids(Seq::<CreditView>::empty()) =~= Seq::<Seq<char>>::empty());
    lemma_upsert_all_keeps_distinct(Seq::empty(), new, n);
    assert forall|i: int| 0 <= i < after.len() implies last_with_id(new, (#[trigger] after[i]).id, n) == Some(
        after[i],
    ) by {
        let id = after[i].id;
        assert(ids[i] == id);
        lemma_position_of_unique(ids, i);
        law_last_stored_record_wins(Seq::empty(), new, n, id);
        assert(lookup_record(Seq::<CreditView>::empty(), id) is None) by {
            lemma_position_of(record_ids(Seq::<CreditView>::empty()), id);
        }
    }
    assert forall|k: int| 0 <= k < new.len() implies ids.contains(#[trigger] new[k].id) by {
        let id = new[k].id;
        lemma_last_with_id_found(new, k, n);
        law_last_stored_record_wins(Seq::empty(), new, n, id);
        lemma_position_of(ids, id);
        let p = position_of(ids, id)->0;
        assert(ids[p] == id);
    }
    if record_ids(new).no_duplicates() {
        lemma_upsert_all_distinct(new, n);
        assert(new.take(n as int) =~= new);
    }
}

/// How a listing answers an injected failure: an internal error, a timeout
/// after ten seconds, an unavailable service, or an unknown failure.
pub fn list_failure_reply(f: FailureType) -> (r: FailureReply)
    ensures
        f == FailureType::InternalError ==> r.delay_ms == 0 && r.status == 500 && r.code@ == "INTERNAL_ERROR"@
            && r.message@ == "Simulated internal error"@,
        f == FailureType::Timeout ==> r.delay_ms == 10000 && r.status == 504 && r.code@ == "TIMEOUT"@ && r.message@
            == "Simulated timeout"@,
        f == FailureType::ServiceUnavailable ==> r.delay_ms == 0 && r.status == 503 && r.code@
            == "SERVICE_UNAVAILABLE"@ && r.message@ == "Simulated service unavailable"@,
        f != FailureType::InternalError && f != FailureType::Timeout && f != FailureType::ServiceUnavailable ==> r.delay_ms
            == 0 && r.status == 500 && r.code@ == "UNKNOWN"@ && r.message@ == "Unknown failure type"@,
{
    match f {
        FailureType::InternalError => failure_reply(0, 500, "INTERNAL_ERROR", "Simulated internal error"),
        FailureType::Timeout => failure_reply(10000, 504, "TIMEOUT", "Simulated timeout"),
        FailureType::ServiceUnavailable => failure_reply(
            0,
            503,
            "SERVICE_UNAVAILABLE",
            "Simulated service unavailable",
        ),
        _ => failure_reply(0, 500, "UNKNOWN", "Unknown failure type"),
    }
}

} // verus!
