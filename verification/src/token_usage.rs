//! The token-usage ledger: running totals, totals per credential, per model
//! and per API key, and the most recent requests, kept in memory.

use vstd::prelude::*;
use std::collections::HashMap;
use std::collections::VecDeque;
use crate::clock::format_utc;
use crate::clock::now_rfc3339;
use crate::clock::parse_rfc3339;
use crate::clock::rfc3339_seconds;
use crate::clock::utc_text;
use crate::text::copy_text;
use crate::text::owned;
use crate::text::str_eq;
use crate::text::text_of;

verus! {

broadcast use vstd::std_specs::hash::group_hash_axioms;

/// How many of the latest requests the ledger keeps.
pub const MAX_RECENT_REQUESTS: usize = 10000;

/// The least number of seconds between two saves that a mutation triggers.
pub const SAVE_DEBOUNCE_SECS: u64 = 30;

// ------------------------------------------------------------------- types

/// One request and the tokens it used.
#[derive(Clone, Debug)]
pub struct TokenUsageRecord {
    /// Time of the request in RFC 3339 form.
    pub timestamp: String,
    /// The model asked for.
    pub model: String,
    /// The credential that served the request.
    pub credential_id: u64,
    /// The API key that made the request, if known.
    pub api_key_id: Option<u64>,
    pub input_tokens: i32,
    pub output_tokens: i32,
    /// The client's address, if known.
    pub client_ip: Option<String>,
    /// The start of what the user sent, if kept.
    pub user_input: Option<String>,
}

/// A record as contracts see it.
pub struct RecordModel {
    pub timestamp: Seq<char>,
    pub model: Seq<char>,
    pub credential_id: u64,
    pub api_key_id: Option<u64>,
    pub input_tokens: i32,
    pub output_tokens: i32,
    pub client_ip: Option<Seq<char>>,
    pub user_input: Option<Seq<char>>,
}

impl View for TokenUsageRecord {
    type V = RecordModel;

    open spec fn view(&self) -> RecordModel {
        RecordModel {
            timestamp: self.timestamp@,
            model: self.model@,
            credential_id: self.credential_id,
            api_key_id: self.api_key_id,
            input_tokens: self.input_tokens,
            output_tokens: self.output_tokens,
            client_ip: text_of(self.client_ip),
            user_input: text_of(self.user_input),
        }
    }
}

/// Totals of one group of requests.
#[derive(Clone, Copy, Debug, PartialEq, Eq, Structural)]
pub struct GroupTokenStats {
    pub input_tokens: i64,
    pub output_tokens: i64,
    pub requests: u64,
}

impl Default for GroupTokenStats {
    fn default() -> (stats: Self)
        ensures
            stats == zero_stats(),
    {
        GroupTokenStats { input_tokens: 0, output_tokens: 0, requests: 0 }
    }
}

/// The totals of one model.
#[derive(Clone, Debug)]
pub struct ModelStats {
    pub model: String,
    pub stats: GroupTokenStats,
}

/// The totals of one model, as contracts see them.
pub struct ModelRow {
    pub model: Seq<char>,
    pub stats: GroupTokenStats,
}

impl View for ModelStats {
    type V = ModelRow;

    open spec fn view(&self) -> ModelRow {
        ModelRow { model: self.model@, stats: self.stats }
    }
}

/// A snapshot of the ledger, or of the part of it that belongs to one key.
#[derive(Clone, Debug)]
pub struct TokenUsageResponse {
    pub total_input_tokens: i64,
    pub total_output_tokens: i64,
    pub total_requests: u64,
    pub by_credential: HashMap<u64, GroupTokenStats>,
    /// One row per model, in the order in which the models first appeared.
    pub by_model: Vec<ModelStats>,
    pub by_api_key: HashMap<u64, GroupTokenStats>,
    /// Oldest first.
    pub recent_requests: Vec<TokenUsageRecord>,
}

/// The ledger as contracts see it. A snapshot has the same shape.
pub struct LedgerModel {
    pub total_input_tokens: i64,
    pub total_output_tokens: i64,
    pub total_requests: u64,
    pub by_credential: Map<u64, GroupTokenStats>,
    pub by_model: Seq<ModelRow>,
    pub by_api_key: Map<u64, GroupTokenStats>,
    pub recent: Seq<RecordModel>,
}

impl View for TokenUsageResponse {
    type V = LedgerModel;

    open spec fn view(&self) -> LedgerModel {
        LedgerModel {
            total_input_tokens: self.total_input_tokens,
            total_output_tokens: self.total_output_tokens,
            total_requests: self.total_requests,
            by_credential: self.by_credential@,
            by_model: model_rows(self.by_model@),
            by_api_key: self.by_api_key@,
            recent: record_models(self.recent_requests@),
        }
    }
}

/// The ledger.
pub struct TokenUsageTracker {
    total_input_tokens: i64,
    total_output_tokens: i64,
    total_requests: u64,
    by_credential: HashMap<u64, GroupTokenStats>,
    by_model: Vec<ModelStats>,
    by_api_key: HashMap<u64, GroupTokenStats>,
    recent_requests: VecDeque<TokenUsageRecord>,
    dirty: bool,
}

// ----------------------------------------------------------- specification

pub open spec fn model_rows(v: Seq<ModelStats>) -> Seq<ModelRow> {
    v.map_values(|m: ModelStats| m@)
}

pub open spec fn record_models(v: Seq<TokenUsageRecord>) -> Seq<RecordModel> {
    v.map_values(|r: TokenUsageRecord| r@)
}

pub open spec fn zero_stats() -> GroupTokenStats {
    GroupTokenStats { input_tokens: 0, output_tokens: 0, requests: 0 }
}

/// A group's totals after one more request.
pub open spec fn bumped(g: GroupTokenStats, input: i32, output: i32) -> GroupTokenStats {
    GroupTokenStats {
        input_tokens: (g.input_tokens + input) as i64,
        output_tokens: (g.output_tokens + output) as i64,
        requests: (g.requests + 1) as u64,
    }
}

/// Whether a group's totals can take one more request without leaving the
/// range of their types.
pub open spec fn bump_fits(g: GroupTokenStats, input: i32, output: i32) -> bool {
    &&& i64::MIN <= g.input_tokens + input <= i64::MAX
    &&& i64::MIN <= g.output_tokens + output <= i64::MAX
    &&& g.requests < u64::MAX
}

/// The totals of key `k`, zero when the map does not hold it.
pub open spec fn stats_at(m: Map<u64, GroupTokenStats>, k: u64) -> GroupTokenStats {
    if m.contains_key(k) {
        m[k]
    } else {
        zero_stats()
    }
}

/// The map after one more request for key `k`.
pub open spec fn tallied(m: Map<u64, GroupTokenStats>, k: u64, input: i32, output: i32) -> Map<
    u64,
    GroupTokenStats,
> {
    m.insert(k, bumped(stats_at(m, k), input, output))
}

/// The index of the first of the first `n` rows for `model`.
pub open spec fn row_of(rows: Seq<ModelRow>, model: Seq<char>, n: int) -> Option<int>
    decreases n,
{
    if n <= 0 {
        None
    } else {
        match row_of(rows, model, n - 1) {
            Some(i) => Some(i),
            None => if rows[n - 1].model == model {
                Some(n - 1)
            } else {
                None
            },
        }
    }
}

pub proof fn lemma_row_of(rows: Seq<ModelRow>, model: Seq<char>, n: int)
    requires
        0 <= n <= rows.len(),
    ensures
        match row_of(rows, model, n) {
            Some(i) => 0 <= i < n && rows[i].model == model && forall|j: int|
                0 <= j < i ==> rows[j].model != model,
            None => forall|j: int| 0 <= j < n ==> rows[j].model != model,
        },
    decreases n,
{
    if n > 0 {
        lemma_row_of(rows, model, n - 1);
    }
}

/// The totals of `model`, zero when no row holds it.
pub open spec fn model_stats_at(rows: Seq<ModelRow>, model: Seq<char>) -> GroupTokenStats {
    match row_of(rows, model, rows.len() as int) {
        Some(i) => rows[i].stats,
        None => zero_stats(),
    }
}

/// The rows after one more request for `model`: its row updated in place, or
/// a new row at the end.
pub open spec fn model_tallied(rows: Seq<ModelRow>, model: Seq<char>, input: i32, output: i32) -> Seq<
    ModelRow,
> {
    match row_of(rows, model, rows.len() as int) {
        Some(i) => rows.update(i, ModelRow { model, stats: bumped(rows[i].stats, input, output) }),
        None => rows.push(ModelRow { model, stats: bumped(zero_stats(), input, output) }),
    }
}

/// Whether no model has two rows.
pub open spec fn one_row_per_model(rows: Seq<ModelRow>) -> bool {
    forall|i: int, j: int| 0 <= i < j < rows.len() ==> rows[i].model != rows[j].model
}

/// The rows with `row` in the place of the row of its model, or at the end
/// where its model has no row yet.
pub open spec fn with_row(rows: Seq<ModelRow>, row: ModelRow) -> Seq<ModelRow> {
    match row_of(rows, row.model, rows.len() as int) {
        Some(i) => rows.update(i, row),
        None => rows.push(row),
    }
}

/// The rows brought to one row per model: a model stands where its first row
/// stood, with the totals of its last row.
pub open spec fn merged(rows: Seq<ModelRow>) -> Seq<ModelRow>
    decreases rows.len(),
{
    if rows.len() == 0 {
        Seq::empty()
    } else {
        with_row(merged(rows.drop_last()), rows.last())
    }
}

/// Putting a row in keeps one row per model.
pub proof fn lemma_with_row(rows: Seq<ModelRow>, row: ModelRow)
    requires
        one_row_per_model(rows),
    ensures
        one_row_per_model(with_row(rows, row)),
{
    lemma_row_of(rows, row.model, rows.len() as int);
    let out = with_row(rows, row);
    assert forall|i: int, j: int| 0 <= i < j < out.len() implies out[i].model != out[j].model by {
        match row_of(rows, row.model, rows.len() as int) {
            Some(k) => {
                assert(out[i].model == rows[i].model);
                assert(out[j].model == rows[j].model);
            },
            None => {
                if j < rows.len() {
                    assert(out[i] == rows[i] && out[j] == rows[j]);
                } else {
                    assert(out[i] == rows[i]);
                    assert(out[j] == row);
                }
            },
        }
    }
}

/// Counting a request keeps one row per model.
pub proof fn lemma_model_tallied_one_row(
    rows: Seq<ModelRow>,
    model: Seq<char>,
    input: i32,
    output: i32,
)
    requires
        one_row_per_model(rows),
    ensures
        one_row_per_model(model_tallied(rows, model, input, output)),
{
    let stats = bumped(model_stats_at(rows, model), input, output);
    assert(model_tallied(rows, model, input, output) == with_row(rows, ModelRow { model, stats }));
    lemma_with_row(rows, ModelRow { model, stats });
}

/// Merged rows hold one row per model, and rows that hold one row per model
/// already are left as they are.
pub proof fn lemma_merged(rows: Seq<ModelRow>)
    ensures
        one_row_per_model(merged(rows)),
        one_row_per_model(rows) ==> merged(rows) == rows,
    decreases rows.len(),
{
    if rows.len() > 0 {
        let front = rows.drop_last();
        lemma_merged(front);
        lemma_with_row(merged(front), rows.last());
        if one_row_per_model(rows) {
            assert(one_row_per_model(front)) by {
                assert forall|i: int, j: int| 0 <= i < j < front.len() implies front[i].model
                    != front[j].model by {
                    assert(front[i] == rows[i] && front[j] == rows[j]);
                }
            }
            lemma_row_of(front, rows.last().model, front.len() as int);
            assert(row_of(front, rows.last().model, front.len() as int) is None) by {
                if row_of(front, rows.last().model, front.len() as int) is Some {
                    let k = row_of(front, rows.last().model, front.len() as int)->0;
                    assert(front[k] == rows[k]);
                    assert(rows[k].model != rows[rows.len() - 1].model);
                }
            }
            assert(front.push(rows.last()) =~= rows);
        }
    }
}

/// The per-model totals of any requests hold one row per model.
pub proof fn lemma_model_tally_one_row(rs: Seq<RecordModel>)
    ensures
        one_row_per_model(model_tally(rs)),
    decreases rs.len(),
{
    if rs.len() > 0 {
        lemma_model_tally_one_row(rs.drop_last());
        lemma_model_tallied_one_row(
            model_tally(rs.drop_last()),
            rs.last().model,
            rs.last().input_tokens,
            rs.last().output_tokens,
        );
    }
}

/// A well-formed ledger stays well-formed when a record is added.
pub proof fn lemma_recorded_wf(l: LedgerModel, r: RecordModel)
    requires
        l.wf(),
    ensures
        l.recorded(r).wf(),
{
    lemma_model_tallied_one_row(l.by_model, r.model, r.input_tokens, r.output_tokens);
}

/// What a well-formed ledger reports for one API key is well-formed too.
pub proof fn lemma_for_api_key_wf(l: LedgerModel, id: u64)
    requires
        l.wf(),
    ensures
        l.for_api_key(id).wf(),
{
    lemma_model_tally_one_row(requests_of_key(l.recent, id));
    l.recent.lemma_filter_len(|r: RecordModel| r.api_key_id == Some(id));
}

/// The last `cap` elements of `s`, or all of `s` if it has no more.
pub open spec fn keep_last<A>(s: Seq<A>, cap: int) -> Seq<A> {
    if s.len() > cap {
        s.skip(s.len() - cap)
    } else {
        s
    }
}

/// A ledger with nothing recorded.
pub open spec fn empty_ledger() -> LedgerModel {
    LedgerModel {
        total_input_tokens: 0,
        total_output_tokens: 0,
        total_requests: 0,
        by_credential: Map::empty(),
        by_model: Seq::empty(),
        by_api_key: Map::empty(),
        recent: Seq::empty(),
    }
}

impl LedgerModel {
    /// The ledger keeps no more than `MAX_RECENT_REQUESTS` requests, and no
    /// model has two rows of totals. Every ledger that this module hands out
    /// is well-formed.
    pub open spec fn wf(self) -> bool {
        &&& self.recent.len() <= MAX_RECENT_REQUESTS
        &&& one_row_per_model(self.by_model)
    }

    /// Whether record `r` can be added without a counter leaving its range.
    pub open spec fn fits(self, r: RecordModel) -> bool {
        &&& i64::MIN <= self.total_input_tokens + r.input_tokens <= i64::MAX
        &&& i64::MIN <= self.total_output_tokens + r.output_tokens <= i64::MAX
        &&& self.total_requests < u64::MAX
        &&& bump_fits(stats_at(self.by_credential, r.credential_id), r.input_tokens, r.output_tokens)
        &&& bump_fits(model_stats_at(self.by_model, r.model), r.input_tokens, r.output_tokens)
        &&& match r.api_key_id {
            Some(k) => bump_fits(stats_at(self.by_api_key, k), r.input_tokens, r.output_tokens),
            None => true,
        }
    }

    /// The ledger after record `r`.
    pub open spec fn recorded(self, r: RecordModel) -> LedgerModel {
        LedgerModel {
            total_input_tokens: (self.total_input_tokens + r.input_tokens) as i64,
            total_output_tokens: (self.total_output_tokens + r.output_tokens) as i64,
            total_requests: (self.total_requests + 1) as u64,
            by_credential: tallied(
                self.by_credential,
                r.credential_id,
                r.input_tokens,
                r.output_tokens,
            ),
            by_model: model_tallied(self.by_model, r.model, r.input_tokens, r.output_tokens),
            by_api_key: match r.api_key_id {
                Some(k) => tallied(self.by_api_key, k, r.input_tokens, r.output_tokens),
                None => self.by_api_key,
            },
            recent: keep_last(self.recent.push(r), MAX_RECENT_REQUESTS as int),
        }
    }

    /// The ledger after the records `rs`, in order.
    pub open spec fn replayed(self, rs: Seq<RecordModel>) -> LedgerModel
        decreases rs.len(),
    {
        if rs.len() == 0 {
            self
        } else {
            self.replayed(rs.drop_last()).recorded(rs.last())
        }
    }

    /// Whether every one of the records `rs` fits when its turn comes.
    pub open spec fn all_fit(self, rs: Seq<RecordModel>) -> bool
        decreases rs.len(),
    {
        rs.len() == 0 || (self.all_fit(rs.drop_last()) && self.replayed(rs.drop_last()).fits(
            rs.last(),
        ))
    }

    /// What the ledger reports for one API key: the key's running totals, the
    /// kept requests of the key, and the per-model and per-credential totals
    /// of those requests alone.
    pub open spec fn for_api_key(self, id: u64) -> LedgerModel {
        let own = requests_of_key(self.recent, id);
        LedgerModel {
            total_input_tokens: stats_at(self.by_api_key, id).input_tokens,
            total_output_tokens: stats_at(self.by_api_key, id).output_tokens,
            total_requests: stats_at(self.by_api_key, id).requests,
            by_credential: credential_tally(own),
            by_model: model_tally(own),
            by_api_key: Map::empty(),
            recent: own,
        }
    }
}

/// The requests among `rs` that API key `id` made.
pub open spec fn requests_of_key(rs: Seq<RecordModel>, id: u64) -> Seq<RecordModel> {
    rs.filter(|r: RecordModel| r.api_key_id == Some(id))
}

/// Totals per credential of the requests `rs`.
pub open spec fn credential_tally(rs: Seq<RecordModel>) -> Map<u64, GroupTokenStats>
    decreases rs.len(),
{
    if rs.len() == 0 {
        Map::empty()
    } else {
        tallied(
            credential_tally(rs.drop_last()),
            rs.last().credential_id,
            rs.last().input_tokens,
            rs.last().output_tokens,
        )
    }
}

/// Totals per model of the requests `rs`.
pub open spec fn model_tally(rs: Seq<RecordModel>) -> Seq<ModelRow>
    decreases rs.len(),
{
    if rs.len() == 0 {
        Seq::empty()
    } else {
        model_tallied(
            model_tally(rs.drop_last()),
            rs.last().model,
            rs.last().input_tokens,
            rs.last().output_tokens,
        )
    }
}

/// The input tokens of the requests among `rs` that API key `id` made.
pub open spec fn key_input_sum(rs: Seq<RecordModel>, id: u64) -> int
    decreases rs.len(),
{
    if rs.len() == 0 {
        0
    } else {
        key_input_sum(rs.drop_last(), id) + if rs.last().api_key_id == Some(id) {
            rs.last().input_tokens as int
        } else {
            0
        }
    }
}

/// The output tokens of the requests among `rs` that API key `id` made.
pub open spec fn key_output_sum(rs: Seq<RecordModel>, id: u64) -> int
    decreases rs.len(),
{
    if rs.len() == 0 {
        0
    } else {
        key_output_sum(rs.drop_last(), id) + if rs.last().api_key_id == Some(id) {
            rs.last().output_tokens as int
        } else {
            0
        }
    }
}

/// How many of the requests `rs` API key `id` made.
pub open spec fn key_request_count(rs: Seq<RecordModel>, id: u64) -> int
    decreases rs.len(),
{
    if rs.len() == 0 {
        0
    } else {
        key_request_count(rs.drop_last(), id) + if rs.last().api_key_id == Some(id) {
            1int
        } else {
            0
        }
    }
}

/// After any records that fit, the totals that the ledger reports for an API
/// key are the sums over all records made with that key, whether or not the
/// ledger still keeps them among the recent ones.
pub proof fn lemma_key_totals_are_sums(rs: Seq<RecordModel>, id: u64)
    requires
        empty_ledger().all_fit(rs),
    ensures
        empty_ledger().replayed(rs).for_api_key(id).total_input_tokens == key_input_sum(rs, id),
        empty_ledger().replayed(rs).for_api_key(id).total_output_tokens == key_output_sum(
            rs,
            id,
        ),
        empty_ledger().replayed(rs).for_api_key(id).total_requests == key_request_count(rs, id),
    decreases rs.len(),
{
    if rs.len() > 0 {
        lemma_key_totals_are_sums(rs.drop_last(), id);
    }
}

/// The grand totals after any records that fit are the sums over all of them.
pub proof fn lemma_totals_are_sums(rs: Seq<RecordModel>)
    requires
        empty_ledger().all_fit(rs),
    ensures
        empty_ledger().replayed(rs).total_requests == rs.len(),
    decreases rs.len(),
{
    if rs.len() > 0 {
        lemma_totals_are_sums(rs.drop_last());
    }
}

// ------------------------------------------------------------------ copies

/// A copy of a record.
pub fn copy_record(r: &TokenUsageRecord) -> (out: TokenUsageRecord)
    ensures
        out@ == r@,
{
    TokenUsageRecord {
        timestamp: r.timestamp.clone(),
        model: r.model.clone(),
        credential_id: r.credential_id,
        api_key_id: r.api_key_id,
        input_tokens: r.input_tokens,
        output_tokens: r.output_tokens,
        client_ip: copy_text(&r.client_ip),
        user_input: copy_text(&r.user_input),
    }
}

/// A copy of the per-model rows.
pub fn copy_rows(rows: &Vec<ModelStats>) -> (out: Vec<ModelStats>)
    ensures
        model_rows(out@) == model_rows(rows@),
{
    let mut out: Vec<ModelStats> = Vec::new();
    let mut i: usize = 0;
    while i < rows.len()
        invariant
            i <= rows.len(),
            out@.len() == i,
            forall|j: int| 0 <= j < i ==> out@[j]@ == rows@[j]@,
        decreases rows.len() - i,
    {
        out.push(ModelStats { model: rows[i].model.clone(), stats: rows[i].stats });
        i = i + 1;
    }
    proof {
        assert(model_rows(out@) =~= model_rows(rows@));
    }
    out
}

/// The rows brought to one row per model: a model stands where its first row
/// stood, with the totals of its last row.
pub fn merge_rows(rows: &Vec<ModelStats>) -> (out: Vec<ModelStats>)
    ensures
        model_rows(out@) == merged(model_rows(rows@)),
        one_row_per_model(model_rows(out@)),
        one_row_per_model(model_rows(rows@)) ==> model_rows(out@) == model_rows(rows@),
{
    let ghost all = model_rows(rows@);
    let mut out: Vec<ModelStats> = Vec::new();
    let mut i: usize = 0;
    proof {
        assert(model_rows(out@) =~= merged(all.take(0)));
    }
    while i < rows.len()
        invariant
            i <= rows.len(),
            all == model_rows(rows@),
            model_rows(out@) == merged(all.take(i as int)),
        decreases rows.len() - i,
    {
        let ghost before = model_rows(out@);
        let row = ModelStats { model: rows[i].model.clone(), stats: rows[i].stats };
        let ghost shown = row@;
        proof {
            assert(all.take(i + 1).drop_last() =~= all.take(i as int));
            assert(all.take(i + 1).last() == shown);
        }
        match find_row(&out, row.model.as_str()) {
            Some(at) => {
                out.set(at, row);
                proof {
                    assert(model_rows(out@) =~= before.update(at as int, shown));
                }
            },
            None => {
                out.push(row);
                proof {
                    assert(model_rows(out@) =~= before.push(shown));
                }
            },
        }
        i = i + 1;
    }
    proof {
        assert(all.take(rows.len() as int) =~= all);
        lemma_merged(all);
    }
    out
}

/// One more request in a group's totals.
pub fn bump(g: GroupTokenStats, input: i32, output: i32) -> (out: GroupTokenStats)
    requires
        bump_fits(g, input, output),
    ensures
        out == bumped(g, input, output),
{
    GroupTokenStats {
        input_tokens: g.input_tokens + input as i64,
        output_tokens: g.output_tokens + output as i64,
        requests: g.requests + 1,
    }
}

/// The totals of key `k` in a map.
pub fn lookup(m: &HashMap<u64, GroupTokenStats>, k: u64) -> (out: GroupTokenStats)
    ensures
        out == stats_at(m@, k),
{
    match m.get(&k) {
        Some(g) => *g,
        None => GroupTokenStats { input_tokens: 0, output_tokens: 0, requests: 0 },
    }
}

/// Counts one more request for key `k` in a map.
pub fn tally(m: &mut HashMap<u64, GroupTokenStats>, k: u64, input: i32, output: i32)
    requires
        bump_fits(stats_at(old(m)@, k), input, output),
    ensures
        final(m)@ == tallied(old(m)@, k, input, output),
{
    let g = lookup(m, k);
    m.insert(k, bump(g, input, output));
}

/// The index of the row for `model`.
pub fn find_row(rows: &Vec<ModelStats>, model: &str) -> (at: Option<usize>)
    ensures
        match at {
            Some(i) => row_of(model_rows(rows@), model@, rows@.len() as int) == Some(i as int)
                && i < rows@.len(),
            None => row_of(model_rows(rows@), model@, rows@.len() as int) is None,
        },
{
    let mut i: usize = 0;
    while i < rows.len()
        invariant
            i <= rows.len(),
            row_of(model_rows(rows@), model@, i as int) is None,
        decreases rows.len() - i,
    {
        proof {
            assert(model_rows(rows@)[i as int] == rows@[i as int]@);
        }
        if str_eq(rows[i].model.as_str(), model) {
            proof {
                lemma_row_of(model_rows(rows@), model@, i + 1);
                lemma_row_of(model_rows(rows@), model@, rows@.len() as int);
            }
            return Some(i);
        }
        i = i + 1;
    }
    None
}

/// The totals of `model` in the rows.
pub fn lookup_row(rows: &Vec<ModelStats>, model: &str) -> (out: GroupTokenStats)
    ensures
        out == model_stats_at(model_rows(rows@), model@),
{
    match find_row(rows, model) {
        Some(i) => {
            proof {
                assert(model_rows(rows@)[i as int] == rows@[i as int]@);
            }
            rows[i].stats
        },
        None => GroupTokenStats { input_tokens: 0, output_tokens: 0, requests: 0 },
    }
}

/// Counts one more request for `model` in the rows.
pub fn tally_row(rows: &mut Vec<ModelStats>, model: String, input: i32, output: i32)
    requires
        bump_fits(model_stats_at(model_rows(old(rows)@), model@), input, output),
    ensures
        model_rows(final(rows)@) == model_tallied(model_rows(old(rows)@), model@, input, output),
{
    let ghost before = model_rows(rows@);
    match find_row(rows, model.as_str()) {
        Some(i) => {
            proof {
                assert(before[i as int] == rows@[i as int]@);
            }
            let g = rows[i].stats;
            let row = ModelStats { model, stats: bump(g, input, output) };
            let ghost shown = row@;
            rows.set(i, row);
            proof {
                assert(model_rows(rows@) =~= before.update(i as int, shown));
            }
        },
        None => {
            let row = ModelStats { model, stats: bump(zero(), input, output) };
            let ghost shown = row@;
            rows.push(row);
            proof {
                assert(model_rows(rows@) =~= before.push(shown));
            }
        },
    }
}

/// Totals with nothing counted.
pub fn zero() -> (out: GroupTokenStats)
    ensures
        out == zero_stats(),
{
    GroupTokenStats { input_tokens: 0, output_tokens: 0, requests: 0 }
}

// ----------------------------------------------------------------- tracker

/// The bound that `k` requests put on a group's totals.
pub open spec fn within(g: GroupTokenStats, k: int) -> bool {
    &&& -k * 0x8000_0000 <= g.input_tokens <= k * 0x8000_0000
    &&& -k * 0x8000_0000 <= g.output_tokens <= k * 0x8000_0000
    &&& g.requests <= k
}

impl View for TokenUsageTracker {
    type V = LedgerModel;

    closed spec fn view(&self) -> LedgerModel {
        LedgerModel {
            total_input_tokens: self.total_input_tokens,
            total_output_tokens: self.total_output_tokens,
            total_requests: self.total_requests,
            by_credential: self.by_credential@,
            by_model: model_rows(self.by_model@),
            by_api_key: self.by_api_key@,
            recent: record_models(self.recent_requests@),
        }
    }
}

impl TokenUsageTracker {
    /// Whether something was recorded or reset since the last save.
    pub closed spec fn dirty(&self) -> bool {
        self.dirty
    }

    /// A ledger with nothing recorded.
    pub fn new() -> (tracker: Self)
        ensures
            tracker@ == empty_ledger(),
            tracker@.wf(),
            !tracker.dirty(),
    {
        let tracker = TokenUsageTracker {
            total_input_tokens: 0,
            total_output_tokens: 0,
            total_requests: 0,
            by_credential: HashMap::new(),
            by_model: Vec::new(),
            by_api_key: HashMap::new(),
            recent_requests: VecDeque::new(),
            dirty: false,
        };
        proof {
            assert(model_rows(tracker.by_model@) =~= Seq::<ModelRow>::empty());
            assert(record_models(tracker.recent_requests@) =~= Seq::<RecordModel>::empty());
        }
        tracker
    }

    /// A ledger holding what was saved earlier. Of the saved requests only the
    /// latest `MAX_RECENT_REQUESTS` are kept, and the per-model totals are
    /// brought to one row per model.
    pub fn from_parts(
        total_input_tokens: i64,
        total_output_tokens: i64,
        total_requests: u64,
        by_credential: HashMap<u64, GroupTokenStats>,
        by_model: Vec<ModelStats>,
        by_api_key: HashMap<u64, GroupTokenStats>,
        recent_requests: Vec<TokenUsageRecord>,
    ) -> (tracker: Self)
        ensures
            tracker@ == (LedgerModel {
                total_input_tokens,
                total_output_tokens,
                total_requests,
                by_credential: by_credential@,
                by_model: merged(model_rows(by_model@)),
                by_api_key: by_api_key@,
                recent: keep_last(record_models(recent_requests@), MAX_RECENT_REQUESTS as int),
            }),
            one_row_per_model(model_rows(by_model@)) ==> tracker@.by_model == model_rows(by_model@),
            tracker@.wf(),
            !tracker.dirty(),
    {
        let by_model = merge_rows(&by_model);
        let ghost all = record_models(recent_requests@);
        let n = recent_requests.len();
        let skip: usize = if n > MAX_RECENT_REQUESTS {
            n - MAX_RECENT_REQUESTS
        } else {
            0
        };
        let mut kept: VecDeque<TokenUsageRecord> = VecDeque::new();
        let mut seen: usize = 0;
        for r in it: recent_requests
            invariant
                seen == it.index(),
                record_models(it.seq()) == all,
                it.seq().len() == n,
                skip <= n,
                n - skip <= MAX_RECENT_REQUESTS,
                kept@.len() == if it.index() <= skip { 0 } else { it.index() - skip },
                forall|j: int| 0 <= j < kept@.len() ==> kept@[j]@ == all[skip + j],
        {
            proof {
                assert(all[it.index() as int] == r@);
            }
            if seen >= skip {
                kept.push_back(r);
            }
            seen = seen + 1;
        }
        proof {
            assert(record_models(kept@) =~= keep_last(all, MAX_RECENT_REQUESTS as int));
        }
        TokenUsageTracker {
            total_input_tokens,
            total_output_tokens,
            total_requests,
            by_credential,
            by_model,
            by_api_key,
            recent_requests: kept,
            dirty: false,
        }
    }

    /// Whether something was recorded or reset since the last save.
    pub fn is_dirty(&self) -> (d: bool)
        ensures
            d == self.dirty(),
    {
        self.dirty
    }

    /// Notes that the ledger has just been saved.
    pub fn mark_saved(&mut self)
        ensures
            final(self)@ == old(self)@,
            !final(self).dirty(),
    {
        self.dirty = false;
    }

    /// Whether a request with these numbers can be recorded without a counter
    /// leaving its range.
    pub fn can_record(
        &self,
        model: &str,
        credential_id: u64,
        input_tokens: i32,
        output_tokens: i32,
        api_key_id: Option<u64>,
    ) -> (ok: bool)
        ensures
            ok == (forall|r: RecordModel|
                r.model == model@ && r.credential_id == credential_id && r.input_tokens
                    == input_tokens && r.output_tokens == output_tokens && r.api_key_id
                    == api_key_id ==> #[trigger] self@.fits(r)),
    {
        let ghost probe = RecordModel {
            timestamp: Seq::empty(),
            model: model@,
            credential_id,
            api_key_id,
            input_tokens,
            output_tokens,
            client_ip: None,
            user_input: None,
        };
        let a = sum_fits(self.total_input_tokens, input_tokens);
        let b = sum_fits(self.total_output_tokens, output_tokens);
        let c = self.total_requests < u64::MAX;
        let d = group_fits(lookup(&self.by_credential, credential_id), input_tokens, output_tokens);
        let e = group_fits(lookup_row(&self.by_model, model), input_tokens, output_tokens);
        let f = match api_key_id {
            Some(k) => group_fits(lookup(&self.by_api_key, k), input_tokens, output_tokens),
            None => true,
        };
        let ok = a && b && c && d && e && f;
        proof {
            assert(ok == self@.fits(probe));
        }
        ok
    }

    /// Records one request made at the given time.
    pub fn record_at(
        &mut self,
        model: String,
        credential_id: u64,
        input_tokens: i32,
        output_tokens: i32,
        api_key_id: Option<u64>,
        client_ip: Option<String>,
        user_input: Option<String>,
        timestamp: String,
    )
        requires
            old(self)@.fits(
                RecordModel {
                    timestamp: timestamp@,
                    model: model@,
                    credential_id,
                    api_key_id,
                    input_tokens,
                    output_tokens,
                    client_ip: text_of(client_ip),
                    user_input: text_of(user_input),
                },
            ),
        ensures
            final(self)@ == old(self)@.recorded(
                RecordModel {
                    timestamp: timestamp@,
                    model: model@,
                    credential_id,
                    api_key_id,
                    input_tokens,
                    output_tokens,
                    client_ip: text_of(client_ip),
                    user_input: text_of(user_input),
                },
            ),
            final(self).dirty(),
            old(self)@.wf() ==> final(self)@.wf(),
    {
        proof {
            if self@.wf() {
                lemma_model_tallied_one_row(self@.by_model, model@, input_tokens, output_tokens);
            }
        }
        let record = TokenUsageRecord {
            timestamp,
            model: model.clone(),
            credential_id,
            api_key_id,
            input_tokens,
            output_tokens,
            client_ip,
            user_input,
        };
        let ghost shown = record@;
        let ghost before = self@;
        self.total_input_tokens = self.total_input_tokens + input_tokens as i64;
        self.total_output_tokens = self.total_output_tokens + output_tokens as i64;
        self.total_requests = self.total_requests + 1;
        tally(&mut self.by_credential, credential_id, input_tokens, output_tokens);
        tally_row(&mut self.by_model, model, input_tokens, output_tokens);
        match api_key_id {
            Some(k) => {
                tally(&mut self.by_api_key, k, input_tokens, output_tokens);
            },
            None => {},
        }
        let ghost kept = self.recent_requests@;
        while self.recent_requests.len() >= MAX_RECENT_REQUESTS
            invariant
                self.recent_requests@.len() <= kept.len(),
                self.recent_requests@.len() == kept.len() || self.recent_requests@.len()
                    >= MAX_RECENT_REQUESTS - 1,
                self.recent_requests@ == kept.skip(kept.len() - self.recent_requests@.len()),
                self.total_input_tokens == (before.total_input_tokens + input_tokens) as i64,
                self.total_output_tokens == (before.total_output_tokens + output_tokens) as i64,
                self.total_requests == (before.total_requests + 1) as u64,
                self.by_credential@ == tallied(
                    before.by_credential,
                    credential_id,
                    input_tokens,
                    output_tokens,
                ),
                model_rows(self.by_model@) == model_tallied(
                    before.by_model,
                    shown.model,
                    input_tokens,
                    output_tokens,
                ),
                self.by_api_key@ == match api_key_id {
                    Some(k) => tallied(before.by_api_key, k, input_tokens, output_tokens),
                    None => before.by_api_key,
                },
            decreases self.recent_requests@.len(),
        {
            self.recent_requests.pop_front();
        }
        self.recent_requests.push_back(record);
        self.dirty = true;
        proof {
            assert(before.recent == record_models(kept));
            let now = record_models(self.recent_requests@);
            let want = keep_last(before.recent.push(shown), MAX_RECENT_REQUESTS as int);
            assert(now.len() == want.len());
            assert forall|j: int| 0 <= j < now.len() implies now[j] == want[j] by {
                let off = kept.len() - (now.len() - 1);
                if j < now.len() - 1 {
                    assert(self.recent_requests@[j] == kept[off + j]);
                    assert(before.recent[off + j] == kept[off + j]@);
                }
            }
            assert(record_models(self.recent_requests@) =~= keep_last(
                before.recent.push(shown),
                MAX_RECENT_REQUESTS as int,
            ));
        }
    }

    /// Records one request made now.
    pub fn record(
        &mut self,
        model: String,
        credential_id: u64,
        input_tokens: i32,
        output_tokens: i32,
        api_key_id: Option<u64>,
        client_ip: Option<String>,
        user_input: Option<String>,
    )
        requires
            forall|r: RecordModel|
                r.model == model@ && r.credential_id == credential_id && r.input_tokens
                    == input_tokens && r.output_tokens == output_tokens && r.api_key_id
                    == api_key_id ==> #[trigger] old(self)@.fits(r),
        ensures
            final(self).dirty(),
            exists|timestamp: Seq<char>|
                final(self)@ == old(self)@.recorded(
                    RecordModel {
                        timestamp,
                        model: model@,
                        credential_id,
                        api_key_id,
                        input_tokens,
                        output_tokens,
                        client_ip: text_of(client_ip),
                        user_input: text_of(user_input),
                    },
                ),
    {
        let timestamp = now_rfc3339();
        let ghost r = RecordModel {
            timestamp: timestamp@,
            model: model@,
            credential_id,
            api_key_id,
            input_tokens,
            output_tokens,
            client_ip: text_of(client_ip),
            user_input: text_of(user_input),
        };
        let ghost before = self@;
        proof {
            assert(before.fits(r));
        }
        self.record_at(
            model,
            credential_id,
            input_tokens,
            output_tokens,
            api_key_id,
            client_ip,
            user_input,
            timestamp,
        );
        proof {
            assert(self@ == before.recorded(r));
        }
    }

    /// Records one request made now if its numbers fit, and says whether it
    /// did; a request that does not fit leaves the ledger as it is.
    pub fn try_record(
        &mut self,
        model: String,
        credential_id: u64,
        input_tokens: i32,
        output_tokens: i32,
        api_key_id: Option<u64>,
        client_ip: Option<String>,
        user_input: Option<String>,
    ) -> (done: bool)
        ensures
            done == (forall|r: RecordModel|
                r.model == model@ && r.credential_id == credential_id && r.input_tokens
                    == input_tokens && r.output_tokens == output_tokens && r.api_key_id
                    == api_key_id ==> #[trigger] old(self)@.fits(r)),
            !done ==> final(self)@ == old(self)@ && final(self).dirty() == old(self).dirty(),
            done ==> final(self).dirty() && exists|timestamp: Seq<char>|
                final(self)@ == old(self)@.recorded(
                    RecordModel {
                        timestamp,
                        model: model@,
                        credential_id,
                        api_key_id,
                        input_tokens,
                        output_tokens,
                        client_ip: text_of(client_ip),
                        user_input: text_of(user_input),
                    },
                ),
    {
        if self.can_record(model.as_str(), credential_id, input_tokens, output_tokens, api_key_id) {
            self.record(
                model,
                credential_id,
                input_tokens,
                output_tokens,
                api_key_id,
                client_ip,
                user_input,
            );
            true
        } else {
            false
        }
    }

    /// A snapshot of the whole ledger.
    pub fn get_stats(&self) -> (snapshot: TokenUsageResponse)
        ensures
            snapshot@ == self@,
    {
        let mut recent: Vec<TokenUsageRecord> = Vec::new();
        let mut i: usize = 0;
        while i < self.recent_requests.len()
            invariant
                i <= self.recent_requests@.len(),
                recent@.len() == i,
                forall|j: int| 0 <= j < i ==> recent@[j]@ == self.recent_requests@[j]@,
            decreases self.recent_requests@.len() - i,
        {
            recent.push(copy_record(&self.recent_requests[i]));
            i = i + 1;
        }
        proof {
            assert(record_models(recent@) =~= record_models(self.recent_requests@));
        }
        TokenUsageResponse {
            total_input_tokens: self.total_input_tokens,
            total_output_tokens: self.total_output_tokens,
            total_requests: self.total_requests,
            by_credential: self.by_credential.clone(),
            by_model: copy_rows(&self.by_model),
            by_api_key: self.by_api_key.clone(),
            recent_requests: recent,
        }
    }

    /// Forgets everything recorded.
    pub fn reset(&mut self)
        ensures
            final(self)@ == empty_ledger(),
            final(self)@.wf(),
            final(self).dirty(),
    {
        self.total_input_tokens = 0;
        self.total_output_tokens = 0;
        self.total_requests = 0;
        self.by_credential = HashMap::new();
        self.by_model = Vec::new();
        self.by_api_key = HashMap::new();
        self.recent_requests = VecDeque::new();
        self.dirty = true;
        proof {
            assert(model_rows(self.by_model@) =~= Seq::<ModelRow>::empty());
            assert(record_models(self.recent_requests@) =~= Seq::<RecordModel>::empty());
        }
    }
}

/// Whether `total + delta` is an `i64`.
pub fn sum_fits(total: i64, delta: i32) -> (ok: bool)
    ensures
        ok == (i64::MIN <= total + delta <= i64::MAX),
{
    let d: i64 = delta as i64;
    if d >= 0 {
        total <= i64::MAX - d
    } else {
        total >= i64::MIN - d
    }
}

/// Whether a group's totals can take one more request.
pub fn group_fits(g: GroupTokenStats, input: i32, output: i32) -> (ok: bool)
    ensures
        ok == bump_fits(g, input, output),
{
    sum_fits(g.input_tokens, input) && sum_fits(g.output_tokens, output) && g.requests < u64::MAX
}

/// Whether a save is due: none was made yet, or the last one was made at
/// least `SAVE_DEBOUNCE_SECS` seconds ago.
pub fn should_flush(seconds_since_last_save: Option<u64>) -> (due: bool)
    ensures
        due == match seconds_since_last_save {
            None => true,
            Some(elapsed) => elapsed >= SAVE_DEBOUNCE_SECS,
        },
{
    match seconds_since_last_save {
        None => true,
        Some(elapsed) => elapsed >= SAVE_DEBOUNCE_SECS,
    }
}

/// Filtering the requests of a key goes through a sequence one at a time.
pub proof fn lemma_requests_of_key_push(rs: Seq<RecordModel>, r: RecordModel, id: u64)
    ensures
        requests_of_key(rs.push(r), id) == if r.api_key_id == Some(id) {
            requests_of_key(rs, id).push(r)
        } else {
            requests_of_key(rs, id)
        },
{
    reveal(Seq::filter);
    assert(rs.push(r).drop_last() == rs);
}

/// Every row of a per-model tally stays within the bound of the number of
/// requests tallied.
pub proof fn lemma_model_tallied_within(
    rows: Seq<ModelRow>,
    model: Seq<char>,
    input: i32,
    output: i32,
    k: int,
)
    requires
        0 <= k <= MAX_RECENT_REQUESTS,
        forall|j: int| 0 <= j < rows.len() ==> within(#[trigger] rows[j].stats, k),
    ensures
        within(model_stats_at(rows, model), k),
        bump_fits(model_stats_at(rows, model), input, output),
        forall|j: int|
            0 <= j < model_tallied(rows, model, input, output).len() ==> within(
                #[trigger] model_tallied(rows, model, input, output)[j].stats,
                k + 1,
            ),
{
    lemma_row_of(rows, model, rows.len() as int);
}

impl TokenUsageTracker {
    /// What the ledger holds for one API key: the key's running totals, which
    /// count every request ever recorded for it, together with the kept
    /// requests of the key and their totals per model and per credential.
    pub fn get_stats_for_api_key(&self, api_key_id: u64) -> (snapshot: TokenUsageResponse)
        requires
            self@.wf(),
        ensures
            snapshot@ == self@.for_api_key(api_key_id),
    {
        let totals = lookup(&self.by_api_key, api_key_id);
        let mut own: Vec<TokenUsageRecord> = Vec::new();
        let mut by_model: Vec<ModelStats> = Vec::new();
        let mut by_credential: HashMap<u64, GroupTokenStats> = HashMap::new();
        let ghost all = self@.recent;
        let n = self.recent_requests.len();
        let mut i: usize = 0;
        proof {
            assert(all.take(0) =~= Seq::<RecordModel>::empty());
            reveal(Seq::filter);
            assert(record_models(own@) =~= requests_of_key(all.take(0), api_key_id));
            assert(model_rows(by_model@) =~= model_tally(record_models(own@)));
        }
        while i < n
            invariant
                i <= n,
                n == self.recent_requests@.len(),
                n <= MAX_RECENT_REQUESTS,
                all == record_models(self.recent_requests@),
                own@.len() <= i,
                record_models(own@) == requests_of_key(all.take(i as int), api_key_id),
                model_rows(by_model@) == model_tally(record_models(own@)),
                by_credential@ == credential_tally(record_models(own@)),
                forall|k: u64| within(#[trigger] stats_at(by_credential@, k), own@.len() as int),
                forall|j: int|
                    0 <= j < by_model@.len() ==> within(
                        #[trigger] model_rows(by_model@)[j].stats,
                        own@.len() as int,
                    ),
            decreases n - i,
        {
            let r = &self.recent_requests[i];
            let ghost shown = r@;
            let ghost own_before = record_models(own@);
            proof {
                assert(all[i as int] == shown);
                assert(all.take(i + 1) =~= all.take(i as int).push(shown));
                lemma_requests_of_key_push(all.take(i as int), shown, api_key_id);
            }
            let mine = match r.api_key_id {
                Some(k) => k == api_key_id,
                None => false,
            };
            if mine {
                let ghost rows_before = model_rows(by_model@);
                let ghost creds_before = by_credential@;
                let ghost k = own@.len() as int;
                proof {
                    lemma_model_tallied_within(
                        rows_before,
                        shown.model,
                        shown.input_tokens,
                        shown.output_tokens,
                        k,
                    );
                    assert(within(stats_at(creds_before, shown.credential_id), k));
                }
                own.push(copy_record(r));
                tally_row(&mut by_model, r.model.clone(), r.input_tokens, r.output_tokens);
                tally(&mut by_credential, r.credential_id, r.input_tokens, r.output_tokens);
                proof {
                    assert(record_models(own@) =~= own_before.push(shown));
                    assert(record_models(own@).drop_last() =~= own_before);
                    assert forall|q: u64| within(
                        #[trigger] stats_at(by_credential@, q),
                        own@.len() as int,
                    ) by {
                        assert(within(stats_at(creds_before, q), k));
                    }
                }
            }
            i = i + 1;
        }
        proof {
            assert(all.take(n as int) =~= all);
        }
        TokenUsageResponse {
            total_input_tokens: totals.input_tokens,
            total_output_tokens: totals.output_tokens,
            total_requests: totals.requests,
            by_credential,
            by_model,
            by_api_key: HashMap::new(),
            recent_requests: own,
        }
    }
}

// ------------------------------------------------------------- time series

/// The width of the buckets of a time series.
#[derive(Clone, Copy, Debug, PartialEq, Eq, Structural)]
pub enum TimeGranularity {
    Hour,
    Day,
    Week,
}

/// The totals of one bucket of a time series.
#[derive(Clone, Debug)]
pub struct TimeRangeStats {
    /// The start of the bucket, as `YYYY-MM-DDTHH:MM:SSZ`.
    pub time_key: String,
    pub input_tokens: i64,
    pub output_tokens: i64,
    pub requests: u64,
}

/// A bucket of a time series, as contracts see it.
pub struct RowModel {
    pub time_key: Seq<char>,
    pub input_tokens: i64,
    pub output_tokens: i64,
    pub requests: u64,
}

impl View for TimeRangeStats {
    type V = RowModel;

    open spec fn view(&self) -> RowModel {
        RowModel {
            time_key: self.time_key@,
            input_tokens: self.input_tokens,
            output_tokens: self.output_tokens,
            requests: self.requests,
        }
    }
}

/// A time series: the latest buckets, latest first, and their totals.
#[derive(Clone, Debug)]
pub struct TokenUsageTimeSeriesResponse {
    pub granularity: String,
    pub data: Vec<TimeRangeStats>,
    pub total_input_tokens: i64,
    pub total_output_tokens: i64,
    pub total_requests: u64,
}

/// A time series, as contracts see it.
pub struct SeriesModel {
    pub granularity: Seq<char>,
    pub data: Seq<RowModel>,
    pub total_input_tokens: i64,
    pub total_output_tokens: i64,
    pub total_requests: u64,
}

pub open spec fn row_models(v: Seq<TimeRangeStats>) -> Seq<RowModel> {
    v.map_values(|r: TimeRangeStats| r@)
}

impl View for TokenUsageTimeSeriesResponse {
    type V = SeriesModel;

    open spec fn view(&self) -> SeriesModel {
        SeriesModel {
            granularity: self.granularity@,
            data: row_models(self.data@),
            total_input_tokens: self.total_input_tokens,
            total_output_tokens: self.total_output_tokens,
            total_requests: self.total_requests,
        }
    }
}

/// One request placed in its bucket: the bucket's start in seconds since the
/// Unix epoch, the bucket's text, and the tokens of the request.
#[derive(Clone, Debug)]
pub struct SeriesPoint {
    pub start: i64,
    pub key: String,
    pub input_tokens: i32,
    pub output_tokens: i32,
}

/// A placed request, as contracts see it.
pub struct PointModel {
    pub start: i64,
    pub key: Seq<char>,
    pub input_tokens: i32,
    pub output_tokens: i32,
}

impl View for SeriesPoint {
    type V = PointModel;

    open spec fn view(&self) -> PointModel {
        PointModel {
            start: self.start,
            key: self.key@,
            input_tokens: self.input_tokens,
            output_tokens: self.output_tokens,
        }
    }
}

pub open spec fn point_models(v: Seq<SeriesPoint>) -> Seq<PointModel> {
    v.map_values(|p: SeriesPoint| p@)
}

/// The name of a granularity.
pub open spec fn granularity_name(g: TimeGranularity) -> Seq<char> {
    match g {
        TimeGranularity::Hour => "hour"@,
        TimeGranularity::Day => "day"@,
        TimeGranularity::Week => "week"@,
    }
}

/// The granularity with the given name.
pub open spec fn granularity_named(name: Seq<char>) -> Option<TimeGranularity> {
    if name == "hour"@ {
        Some(TimeGranularity::Hour)
    } else if name == "day"@ {
        Some(TimeGranularity::Day)
    } else if name == "week"@ {
        Some(TimeGranularity::Week)
    } else {
        None
    }
}

/// How many buckets a time series shows: 48 hours, 30 days or 12 weeks.
pub open spec fn row_limit(g: TimeGranularity) -> nat {
    match g {
        TimeGranularity::Hour => 48,
        TimeGranularity::Day => 30,
        TimeGranularity::Week => 12,
    }
}

/// The start of the bucket that holds the instant `secs`, both in seconds
/// since the Unix epoch: the full hour, midnight UTC, or midnight UTC of the
/// Monday of the week. (The epoch fell on a Thursday, so second 345600 began a
/// Monday.)
pub open spec fn bucket_start(secs: int, g: TimeGranularity) -> int {
    match g {
        TimeGranularity::Hour => secs - secs % 3600,
        TimeGranularity::Day => secs - secs % 86400,
        TimeGranularity::Week => secs - (secs - 345600) % 604800,
    }
}

/// The largest bucket start among `ps` that lies below `bound`; with no
/// bound, the largest of all.
pub open spec fn max_start_below(ps: Seq<PointModel>, bound: Option<i64>) -> Option<i64>
    decreases ps.len(),
{
    if ps.len() == 0 {
        None
    } else {
        let rest = max_start_below(ps.drop_last(), bound);
        let s = ps.last().start;
        let admitted = match bound {
            Some(b) => s < b,
            None => true,
        };
        if admitted && (rest is None || rest->0 < s) {
            Some(s)
        } else {
            rest
        }
    }
}

/// `max_start_below` gives a start that occurs, lies below the bound and is
/// not exceeded by any other such start; it gives none only if there is none.
pub proof fn lemma_max_start_below(ps: Seq<PointModel>, bound: Option<i64>)
    ensures
        match max_start_below(ps, bound) {
            Some(m) => {
                &&& exists|i: int| 0 <= i < ps.len() && ps[i].start == m
                &&& bound is Some ==> m < bound->0
                &&& forall|i: int|
                    0 <= i < ps.len() && (bound is Some ==> ps[i].start < bound->0)
                        ==> ps[i].start <= m
            },
            None => forall|i: int|
                0 <= i < ps.len() ==> bound is Some && ps[i].start >= bound->0,
        },
    decreases ps.len(),
{
    if ps.len() > 0 {
        let front = ps.drop_last();
        lemma_max_start_below(front, bound);
        match max_start_below(front, bound) {
            Some(m) => {
                let w = choose|i: int| 0 <= i < front.len() && front[i].start == m;
                assert(ps[w].start == m);
            },
            None => {},
        }
        match max_start_below(ps, bound) {
            Some(m) => {
                if m == ps.last().start {
                    assert(ps[ps.len() - 1].start == m);
                }
                assert forall|i: int|
                    0 <= i < ps.len() && (bound is Some ==> ps[i].start < bound->0)
                        implies ps[i].start <= m by {
                    if i < front.len() {
                        assert(front[i] == ps[i]);
                    }
                }
            },
            None => {
                assert forall|i: int| 0 <= i < ps.len() implies bound is Some && ps[i].start
                    >= bound->0 by {
                    if i < front.len() {
                        assert(front[i] == ps[i]);
                    }
                }
            },
        }
    }
}

/// The start of bucket number `i` of `ps`, counting from the latest as 0.
pub open spec fn nth_start(ps: Seq<PointModel>, i: nat) -> Option<i64>
    decreases i,
{
    if i == 0 {
        max_start_below(ps, None)
    } else {
        match nth_start(ps, (i - 1) as nat) {
            Some(b) => max_start_below(ps, Some(b)),
            None => None,
        }
    }
}

/// The input tokens of the points of `ps` in bucket `b`.
pub open spec fn input_sum_at(ps: Seq<PointModel>, b: i64) -> int
    decreases ps.len(),
{
    if ps.len() == 0 {
        0
    } else {
        input_sum_at(ps.drop_last(), b) + if ps.last().start == b {
            ps.last().input_tokens as int
        } else {
            0
        }
    }
}

/// The output tokens of the points of `ps` in bucket `b`.
pub open spec fn output_sum_at(ps: Seq<PointModel>, b: i64) -> int
    decreases ps.len(),
{
    if ps.len() == 0 {
        0
    } else {
        output_sum_at(ps.drop_last(), b) + if ps.last().start == b {
            ps.last().output_tokens as int
        } else {
            0
        }
    }
}

/// The number of points of `ps` in bucket `b`.
pub open spec fn count_at(ps: Seq<PointModel>, b: i64) -> int
    decreases ps.len(),
{
    if ps.len() == 0 {
        0
    } else {
        count_at(ps.drop_last(), b) + if ps.last().start == b {
            1int
        } else {
            0
        }
    }
}

/// The text of the first point of `ps` in bucket `b`.
pub open spec fn key_at(ps: Seq<PointModel>, b: i64) -> Seq<char>
    decreases ps.len(),
{
    if ps.len() == 0 {
        Seq::empty()
    } else if count_at(ps.drop_last(), b) > 0 {
        key_at(ps.drop_last(), b)
    } else if ps.last().start == b {
        ps.last().key
    } else {
        Seq::empty()
    }
}

/// The row of bucket `b`.
pub open spec fn row_at(ps: Seq<PointModel>, b: i64) -> RowModel {
    RowModel {
        time_key: key_at(ps, b),
        input_tokens: input_sum_at(ps, b) as i64,
        output_tokens: output_sum_at(ps, b) as i64,
        requests: count_at(ps, b) as u64,
    }
}

/// The rows of the `n` latest buckets of `ps`, latest first; fewer if `ps`
/// has fewer buckets.
pub open spec fn rows_upto(ps: Seq<PointModel>, n: nat) -> Seq<RowModel>
    decreases n,
{
    if n == 0 {
        Seq::empty()
    } else {
        match nth_start(ps, (n - 1) as nat) {
            Some(b) => rows_upto(ps, (n - 1) as nat).push(row_at(ps, b)),
            None => rows_upto(ps, (n - 1) as nat),
        }
    }
}

/// The start of the earliest of the `n` latest buckets of `ps`.
pub open spec fn cutoff(ps: Seq<PointModel>, n: nat) -> Option<i64>
    decreases n,
{
    if n == 0 {
        None
    } else {
        match nth_start(ps, (n - 1) as nat) {
            Some(b) => Some(b),
            None => cutoff(ps, (n - 1) as nat),
        }
    }
}

/// The input tokens of the points of `ps` in buckets that start at `from` or
/// later.
pub open spec fn input_sum_from(ps: Seq<PointModel>, from: i64) -> int
    decreases ps.len(),
{
    if ps.len() == 0 {
        0
    } else {
        input_sum_from(ps.drop_last(), from) + if ps.last().start >= from {
            ps.last().input_tokens as int
        } else {
            0
        }
    }
}

/// The output tokens of the points of `ps` in buckets that start at `from` or
/// later.
pub open spec fn output_sum_from(ps: Seq<PointModel>, from: i64) -> int
    decreases ps.len(),
{
    if ps.len() == 0 {
        0
    } else {
        output_sum_from(ps.drop_last(), from) + if ps.last().start >= from {
            ps.last().output_tokens as int
        } else {
            0
        }
    }
}

/// The number of points of `ps` in buckets that start at `from` or later.
pub open spec fn count_from(ps: Seq<PointModel>, from: i64) -> int
    decreases ps.len(),
{
    if ps.len() == 0 {
        0
    } else {
        count_from(ps.drop_last(), from) + if ps.last().start >= from {
            1int
        } else {
            0
        }
    }
}

/// The time series of the placed requests `ps`: the rows of the latest
/// buckets, as many as the granularity shows, and the totals of the requests
/// in those buckets.
pub open spec fn series_of(ps: Seq<PointModel>, g: TimeGranularity) -> SeriesModel {
    let cut = cutoff(ps, row_limit(g));
    SeriesModel {
        granularity: granularity_name(g),
        data: rows_upto(ps, row_limit(g)),
        total_input_tokens: match cut {
            Some(c) => input_sum_from(ps, c) as i64,
            None => 0,
        },
        total_output_tokens: match cut {
            Some(c) => output_sum_from(ps, c) as i64,
            None => 0,
        },
        total_requests: match cut {
            Some(c) => count_from(ps, c) as u64,
            None => 0,
        },
    }
}

/// Where a record falls in a time series: nowhere if its time cannot be
/// read, or if the start of its bucket cannot be written.
pub open spec fn point_of(r: RecordModel, g: TimeGranularity) -> Option<PointModel> {
    match rfc3339_seconds(r.timestamp) {
        Some(secs) => {
            let b = bucket_start(secs as int, g);
            if b < i64::MIN {
                None
            } else {
                match utc_text(b as i64) {
                    Some(key) => Some(
                        PointModel {
                            start: b as i64,
                            key,
                            input_tokens: r.input_tokens,
                            output_tokens: r.output_tokens,
                        },
                    ),
                    None => None,
                }
            }
        },
        None => None,
    }
}

/// The records `rs` placed in their buckets, in order.
pub open spec fn points_of(rs: Seq<RecordModel>, g: TimeGranularity) -> Seq<PointModel>
    decreases rs.len(),
{
    if rs.len() == 0 {
        Seq::empty()
    } else {
        match point_of(rs.last(), g) {
            Some(p) => points_of(rs.drop_last(), g).push(p),
            None => points_of(rs.drop_last(), g),
        }
    }
}

impl TimeGranularity {
    /// The granularity with the given name: `hour`, `day` or `week`.
    pub fn from_str(s: &str) -> (g: Option<Self>)
        ensures
            g == granularity_named(s@),
    {
        if str_eq(s, "hour") {
            Some(TimeGranularity::Hour)
        } else if str_eq(s, "day") {
            Some(TimeGranularity::Day)
        } else if str_eq(s, "week") {
            Some(TimeGranularity::Week)
        } else {
            None
        }
    }

    /// The name of the granularity.
    pub fn as_str(&self) -> (name: &'static str)
        ensures
            name@ == granularity_name(*self),
    {
        match self {
            TimeGranularity::Hour => "hour",
            TimeGranularity::Day => "day",
            TimeGranularity::Week => "week",
        }
    }

    /// How many buckets a series of this granularity shows.
    pub fn limit(&self) -> (n: usize)
        ensures
            n == row_limit(*self),
    {
        match self {
            TimeGranularity::Hour => 48,
            TimeGranularity::Day => 30,
            TimeGranularity::Week => 12,
        }
    }
}

/// The remainder of `a` by `m` that lies between 0 and `m - 1`.
pub fn floor_mod(a: i64, m: i64) -> (r: i64)
    requires
        m > 0,
    ensures
        r == (a as int) % (m as int),
        0 <= r < m,
{
    if a >= 0 {
        a % m
    } else {
        // -(a + 1) is the distance of `a` below -1, and never overflows.
        let below: i64 = -(a + 1);
        let t: i64 = below % m;
        proof {
            let ai = a as int;
            let bi = below as int;
            let mi = m as int;
            let ti = t as int;
            assert(ai == -bi - 1);
            assert(ti == bi % mi);
            let q = bi / mi;
            vstd::arithmetic::div_mod::lemma_fundamental_div_mod(bi, mi);
            assert(ai == (-q - 1) * mi + (mi - 1 - ti)) by (nonlinear_arith)
                requires
                    ai == -bi - 1,
                    bi == mi * q + ti,
            ;
            vstd::arithmetic::div_mod::lemma_fundamental_div_mod_converse(
                ai,
                mi,
                -q - 1,
                mi - 1 - ti,
            );
        }
        m - 1 - t
    }
}

/// The start of the bucket that holds the instant `secs`; `None` where the
/// start lies below the least `i64`.
pub fn bucket_of(secs: i64, g: TimeGranularity) -> (start: Option<i64>)
    ensures
        match start {
            Some(b) => b == bucket_start(secs as int, g),
            None => bucket_start(secs as int, g) < i64::MIN,
        },
{
    let into: i64 = match g {
        TimeGranularity::Hour => floor_mod(secs, 3600),
        TimeGranularity::Day => floor_mod(secs, 86400),
        TimeGranularity::Week => {
            let r = floor_mod(secs, 604800);
            // The Monday before falls 345600 seconds into the 604800 that
            // the remainder counts from a Thursday.
            let w = if r >= 345600 {
                r - 345600
            } else {
                r + 259200
            };
            proof {
                let si = secs as int;
                let ri = r as int;
                let wi = w as int;
                let q = si / 604800;
                vstd::arithmetic::div_mod::lemma_fundamental_div_mod(si, 604800);
                if ri >= 345600 {
                    vstd::arithmetic::div_mod::lemma_fundamental_div_mod_converse(
                        si - 345600,
                        604800,
                        q,
                        wi,
                    );
                } else {
                    vstd::arithmetic::div_mod::lemma_fundamental_div_mod_converse(
                        si - 345600,
                        604800,
                        q - 1,
                        wi,
                    );
                }
            }
            w
        },
    };
    if secs >= i64::MIN + into {
        Some(secs - into)
    } else {
        None
    }
}

/// The largest bucket start among the points that lies below `bound`.
pub fn latest_below(points: &Vec<SeriesPoint>, bound: Option<i64>) -> (best: Option<i64>)
    ensures
        best == max_start_below(point_models(points@), bound),
{
    let ghost ps = point_models(points@);
    let mut best: Option<i64> = None;
    let mut i: usize = 0;
    proof {
        assert(ps.take(0) =~= Seq::<PointModel>::empty());
    }
    while i < points.len()
        invariant
            i <= points.len(),
            ps == point_models(points@),
            best == max_start_below(ps.take(i as int), bound),
        decreases points.len() - i,
    {
        let s = points[i].start;
        proof {
            assert(ps[i as int] == points@[i as int]@);
            assert(ps.take(i + 1).drop_last() =~= ps.take(i as int));
            assert(ps.take(i + 1).last() == ps[i as int]);
        }
        let admitted = match bound {
            Some(b) => s < b,
            None => true,
        };
        let higher = match best {
            Some(m) => m < s,
            None => true,
        };
        if admitted && higher {
            best = Some(s);
        }
        i = i + 1;
    }
    proof {
        assert(ps.take(points@.len() as int) =~= ps);
    }
    best
}

/// The sums of a bucket stay within the bound of the number of points.
pub proof fn lemma_sums_bounded(ps: Seq<PointModel>, b: i64)
    ensures
        0 <= count_at(ps, b) <= ps.len(),
        -ps.len() * 0x8000_0000 <= input_sum_at(ps, b) <= ps.len() * 0x8000_0000,
        -ps.len() * 0x8000_0000 <= output_sum_at(ps, b) <= ps.len() * 0x8000_0000,
        0 <= count_from(ps, b) <= ps.len(),
        -ps.len() * 0x8000_0000 <= input_sum_from(ps, b) <= ps.len() * 0x8000_0000,
        -ps.len() * 0x8000_0000 <= output_sum_from(ps, b) <= ps.len() * 0x8000_0000,
    decreases ps.len(),
{
    if ps.len() > 0 {
        lemma_sums_bounded(ps.drop_last(), b);
    }
}

/// A bucket without points has no text.
pub proof fn lemma_key_of_empty_bucket(ps: Seq<PointModel>, b: i64)
    requires
        count_at(ps, b) == 0,
    ensures
        key_at(ps, b) == Seq::<char>::empty(),
    decreases ps.len(),
{
    if ps.len() > 0 {
        lemma_sums_bounded(ps.drop_last(), b);
        lemma_key_of_empty_bucket(ps.drop_last(), b);
    }
}

/// The row of bucket `b`.
pub fn row_for(points: &Vec<SeriesPoint>, b: i64) -> (row: TimeRangeStats)
    requires
        points.len() <= 0x7fff_ffff,
    ensures
        row@ == row_at(point_models(points@), b),
{
    let ghost ps = point_models(points@);
    let mut key: String = String::new();
    let mut input: i64 = 0;
    let mut output: i64 = 0;
    let mut count: u64 = 0;
    let mut i: usize = 0;
    proof {
        assert(ps.take(0) =~= Seq::<PointModel>::empty());
    }
    while i < points.len()
        invariant
            i <= points.len(),
            points.len() <= 0x7fff_ffff,
            ps == point_models(points@),
            key@ == key_at(ps.take(i as int), b),
            input == input_sum_at(ps.take(i as int), b),
            output == output_sum_at(ps.take(i as int), b),
            count == count_at(ps.take(i as int), b),
        decreases points.len() - i,
    {
        let p = &points[i];
        proof {
            assert(ps[i as int] == p@);
            assert(ps.take(i + 1).drop_last() =~= ps.take(i as int));
            assert(ps.take(i + 1).last() == ps[i as int]);
            lemma_sums_bounded(ps.take(i as int), b);
            lemma_sums_bounded(ps.take(i + 1), b);
            if count == 0 {
                lemma_key_of_empty_bucket(ps.take(i as int), b);
            }
        }
        if p.start == b {
            if count == 0 {
                key = p.key.clone();
            }
            input = input + p.input_tokens as i64;
            output = output + p.output_tokens as i64;
            count = count + 1;
        }
        i = i + 1;
    }
    proof {
        assert(ps.take(points@.len() as int) =~= ps);
    }
    TimeRangeStats { time_key: key, input_tokens: input, output_tokens: output, requests: count }
}

/// Once a series has run out of buckets it has no further ones.
pub proof fn lemma_no_more_buckets(ps: Seq<PointModel>, k: nat, n: nat)
    requires
        nth_start(ps, k) is None,
        k <= n,
    ensures
        rows_upto(ps, n) == rows_upto(ps, k),
        cutoff(ps, n) == cutoff(ps, k),
        nth_start(ps, n) is None,
    decreases n,
{
    if n > k {
        lemma_no_more_buckets(ps, k, (n - 1) as nat);
    }
}

/// The time series of requests already placed in their buckets.
pub fn series_from(points: &Vec<SeriesPoint>, granularity: TimeGranularity) -> (series:
    TokenUsageTimeSeriesResponse)
    requires
        points.len() <= 0x7fff_ffff,
    ensures
        series@ == series_of(point_models(points@), granularity),
{
    let ghost ps = point_models(points@);
    let limit = granularity.limit();
    let mut data: Vec<TimeRangeStats> = Vec::new();
    let mut bound: Option<i64> = None;
    let mut k: usize = 0;
    let mut more = true;
    proof {
        assert(row_models(data@) =~= rows_upto(ps, 0));
    }
    while k < limit && more
        invariant
            k <= limit,
            limit == row_limit(granularity),
            points.len() <= 0x7fff_ffff,
            ps == point_models(points@),
            more ==> row_models(data@) == rows_upto(ps, k as nat),
            more ==> bound == cutoff(ps, k as nat),
            more && k > 0 ==> nth_start(ps, (k - 1) as nat) == bound && bound is Some,
            !more ==> row_models(data@) == rows_upto(ps, limit as nat),
            !more ==> bound == cutoff(ps, limit as nat),
        decreases limit - k + if more { 1int } else { 0 },
    {
        let next = latest_below(points, bound);
        proof {
            assert(next == nth_start(ps, k as nat));
        }
        match next {
            Some(b) => {
                let row = row_for(points, b);
                let ghost before = row_models(data@);
                let ghost shown = row@;
                data.push(row);
                proof {
                    assert(row_models(data@) =~= before.push(shown));
                }
                bound = Some(b);
                k = k + 1;
            },
            None => {
                proof {
                    lemma_no_more_buckets(ps, k as nat, limit as nat);
                }
                more = false;
            },
        }
    }
    let mut input: i64 = 0;
    let mut output: i64 = 0;
    let mut count: u64 = 0;
    match bound {
        Some(from) => {
            let mut i: usize = 0;
            proof {
                assert(ps.take(0) =~= Seq::<PointModel>::empty());
            }
            while i < points.len()
                invariant
                    i <= points.len(),
                    points.len() <= 0x7fff_ffff,
                    ps == point_models(points@),
                    input == input_sum_from(ps.take(i as int), from),
                    output == output_sum_from(ps.take(i as int), from),
                    count == count_from(ps.take(i as int), from),
                decreases points.len() - i,
            {
                let p = &points[i];
                proof {
                    assert(ps[i as int] == p@);
                    assert(ps.take(i + 1).drop_last() =~= ps.take(i as int));
                    assert(ps.take(i + 1).last() == ps[i as int]);
                    lemma_sums_bounded(ps.take(i as int), from);
                    lemma_sums_bounded(ps.take(i + 1), from);
                }
                if p.start >= from {
                    input = input + p.input_tokens as i64;
                    output = output + p.output_tokens as i64;
                    count = count + 1;
                }
                i = i + 1;
            }
            proof {
                assert(ps.take(points@.len() as int) =~= ps);
            }
        },
        None => {},
    }
    TokenUsageTimeSeriesResponse {
        granularity: owned(granularity.as_str()),
        data,
        total_input_tokens: input,
        total_output_tokens: output,
        total_requests: count,
    }
}

impl TokenUsageTracker {
    /// The kept requests placed in the buckets of the given granularity.
    /// Requests whose time cannot be read are left out.
    pub fn series_points(&self, granularity: TimeGranularity) -> (points: Vec<SeriesPoint>)
        ensures
            point_models(points@) == points_of(self@.recent, granularity),
            points@.len() <= self@.recent.len(),
    {
        let ghost all = self@.recent;
        let mut points: Vec<SeriesPoint> = Vec::new();
        let n = self.recent_requests.len();
        let mut i: usize = 0;
        proof {
            assert(all.take(0) =~= Seq::<RecordModel>::empty());
            assert(point_models(points@) =~= points_of(all.take(0), granularity));
        }
        while i < n
            invariant
                i <= n,
                n == self.recent_requests@.len(),
                all == record_models(self.recent_requests@),
                points@.len() <= i,
                point_models(points@) == points_of(all.take(i as int), granularity),
            decreases n - i,
        {
            let r = &self.recent_requests[i];
            let ghost before = point_models(points@);
            proof {
                assert(all[i as int] == r@);
                assert(all.take(i + 1).drop_last() =~= all.take(i as int));
                assert(all.take(i + 1).last() == all[i as int]);
            }
            match parse_rfc3339(r.timestamp.as_str()) {
                Some(secs) => {
                    match bucket_of(secs, granularity) {
                        Some(start) => {
                            match format_utc(start) {
                                Some(key) => {
                                    let p = SeriesPoint {
                                        start,
                                        key,
                                        input_tokens: r.input_tokens,
                                        output_tokens: r.output_tokens,
                                    };
                                    let ghost shown = p@;
                                    points.push(p);
                                    proof {
                                        assert(point_models(points@) =~= before.push(shown));
                                    }
                                },
                                None => {},
                            }
                        },
                        None => {},
                    }
                },
                None => {},
            }
            i = i + 1;
        }
        proof {
            assert(all.take(n as int) =~= all);
        }
        points
    }

    /// The time series of the kept requests: they are placed in buckets by
    /// their time, and the latest buckets are shown, latest first.
    pub fn get_timeseries_stats(&self, granularity: TimeGranularity) -> (series:
        TokenUsageTimeSeriesResponse)
        requires
            self@.wf(),
        ensures
            series@ == series_of(points_of(self@.recent, granularity), granularity),
    {
        let points = self.series_points(granularity);
        series_from(&points, granularity)
    }
}

// ------------------------------------------------------ laws of time series

/// The buckets of a series come latest first: each starts before the one
/// shown before it.
pub proof fn lemma_buckets_descend(ps: Seq<PointModel>, i: nat)
    requires
        nth_start(ps, i + 1) is Some,
    ensures
        nth_start(ps, i) is Some,
        nth_start(ps, i + 1)->0 < nth_start(ps, i)->0,
{
    lemma_max_start_below(ps, nth_start(ps, i));
}

/// A bucket in which a point falls holds at least one request.
pub proof fn lemma_bucket_of_a_point(ps: Seq<PointModel>, k: int)
    requires
        0 <= k < ps.len(),
    ensures
        count_at(ps, ps[k].start) >= 1,
    decreases ps.len(),
{
    lemma_sums_bounded(ps.drop_last(), ps[k].start);
    if k < ps.len() - 1 {
        lemma_bucket_of_a_point(ps.drop_last(), k);
    }
}

/// Every row of a series holds at least one request.
pub proof fn lemma_rows_hold_requests(ps: Seq<PointModel>, i: nat)
    requires
        nth_start(ps, i) is Some,
    ensures
        count_at(ps, nth_start(ps, i)->0) >= 1,
{
    let bound = if i == 0 {
        None
    } else {
        nth_start(ps, (i - 1) as nat)
    };
    lemma_max_start_below(ps, bound);
    let b = nth_start(ps, i)->0;
    let k = choose|k: int| 0 <= k < ps.len() && ps[k].start == b;
    lemma_bucket_of_a_point(ps, k);
}

/// The sums of the first `n` buckets of a series, taken bucket by bucket.
pub open spec fn rows_sums(ps: Seq<PointModel>, n: nat) -> (int, int, int)
    decreases n,
{
    if n == 0 {
        (0, 0, 0)
    } else {
        let before = rows_sums(ps, (n - 1) as nat);
        match nth_start(ps, (n - 1) as nat) {
            Some(b) => (
                before.0 + input_sum_at(ps, b),
                before.1 + output_sum_at(ps, b),
                before.2 + count_at(ps, b),
            ),
            None => before,
        }
    }
}

/// Where no point starts between `low` and `high`, the points from `low` on
/// are those of the bucket `low` and those from `high` on.
pub proof fn lemma_sums_split(qs: Seq<PointModel>, low: i64, high: i64)
    requires
        low < high,
        forall|i: int| 0 <= i < qs.len() && qs[i].start < high ==> qs[i].start <= low,
    ensures
        input_sum_from(qs, low) == input_sum_from(qs, high) + input_sum_at(qs, low),
        output_sum_from(qs, low) == output_sum_from(qs, high) + output_sum_at(qs, low),
        count_from(qs, low) == count_from(qs, high) + count_at(qs, low),
    decreases qs.len(),
{
    if qs.len() > 0 {
        let front = qs.drop_last();
        assert forall|i: int| 0 <= i < front.len() && front[i].start < high implies front[i].start
            <= low by {
            assert(front[i] == qs[i]);
        }
        lemma_sums_split(front, low, high);
        assert(qs[qs.len() - 1].start < high ==> qs[qs.len() - 1].start <= low);
    }
}

/// Where no point starts after `top`, the points from `top` on are those of
/// the bucket `top`.
pub proof fn lemma_sums_top(qs: Seq<PointModel>, top: i64)
    requires
        forall|i: int| 0 <= i < qs.len() ==> qs[i].start <= top,
    ensures
        input_sum_from(qs, top) == input_sum_at(qs, top),
        output_sum_from(qs, top) == output_sum_at(qs, top),
        count_from(qs, top) == count_at(qs, top),
    decreases qs.len(),
{
    if qs.len() > 0 {
        let front = qs.drop_last();
        assert forall|i: int| 0 <= i < front.len() implies front[i].start <= top by {
            assert(front[i] == qs[i]);
        }
        lemma_sums_top(front, top);
        assert(qs[qs.len() - 1].start <= top);
    }
}

/// The totals of a series are the sums of its rows: the requests from the
/// earliest bucket shown on are the requests of the buckets shown.
pub proof fn lemma_totals_are_row_sums(ps: Seq<PointModel>, n: nat)
    ensures
        match cutoff(ps, n) {
            Some(c) => rows_sums(ps, n) == (
                input_sum_from(ps, c),
                output_sum_from(ps, c),
                count_from(ps, c),
            ),
            None => rows_sums(ps, n) == (0int, 0int, 0int) && forall|k: nat|
                k < n ==> nth_start(ps, k) is None,
        },
    decreases n,
{
    if n > 0 {
        let m = (n - 1) as nat;
        lemma_totals_are_row_sums(ps, m);
        match nth_start(ps, m) {
            Some(c) => {
                if m == 0 {
                    lemma_max_start_below(ps, None);
                    lemma_sums_top(ps, c);
                } else {
                    let before = nth_start(ps, (m - 1) as nat);
                    assert(before is Some);
                    assert(cutoff(ps, m) == before);
                    lemma_max_start_below(ps, before);
                    lemma_sums_split(ps, c, before->0);
                }
            },
            None => {
                if m > 0 && cutoff(ps, m) is None {
                    assert(nth_start(ps, (m - 1) as nat) is None);
                }
            },
        }
    }
}

} // verus!
