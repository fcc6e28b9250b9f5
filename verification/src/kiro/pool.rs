//! The credential pool: the upstream credentials with their running status,
//! kept in the order in which they are preferred.

use vstd::prelude::*;
use crate::kiro::model::credentials::CredentialModel;
use crate::kiro::model::credentials::KiroCredentials;
use crate::text::copy_text;
use crate::text::str_eq;
use crate::text::text_of;

verus! {

// ------------------------------------------------------------------- types

/// A credential of the pool and how it has fared.
#[derive(Clone, Debug)]
pub struct PoolEntry {
    /// The credential. In the pool it always has an id.
    pub credential: KiroCredentials,
    /// Failures in a row.
    pub failure_count: u32,
    /// Failures over the credential's life.
    pub total_failure_count: u64,
    /// Calls that succeeded.
    pub success_count: u64,
    /// When the credential last served a call, in RFC 3339 form.
    pub last_used_at: Option<String>,
    /// When the access token obtained by the last refresh expires, in seconds
    /// since the Unix epoch; absent until a refresh.
    pub access_expires: Option<i64>,
    /// Why the credential was disabled, if its failures disabled it.
    pub disabled_reason: Option<String>,
}

/// A pool entry, as contracts see it.
pub struct EntryModel {
    pub credential: CredentialModel,
    pub failure_count: u32,
    pub total_failure_count: u64,
    pub success_count: u64,
    pub last_used_at: Option<Seq<char>>,
    pub access_expires: Option<i64>,
    pub disabled_reason: Option<Seq<char>>,
}

impl EntryModel {
    /// The entry's id; 0 stands in for a credential without one, which the
    /// pool never holds.
    pub open spec fn id(self) -> u64 {
        match self.credential.id {
            Some(id) => id,
            None => 0,
        }
    }

    pub open spec fn priority(self) -> u32 {
        self.credential.priority
    }

    pub open spec fn disabled(self) -> bool {
        self.credential.disabled
    }

    /// The entry with another priority.
    pub open spec fn with_priority(self, priority: u32) -> EntryModel {
        EntryModel { credential: CredentialModel { priority, ..self.credential }, ..self }
    }

    /// The entry disabled or enabled by hand: no reason is kept.
    pub open spec fn with_disabled(self, disabled: bool) -> EntryModel {
        EntryModel {
            credential: CredentialModel { disabled, ..self.credential },
            disabled_reason: None,
            ..self
        }
    }
}

impl View for PoolEntry {
    type V = EntryModel;

    open spec fn view(&self) -> EntryModel {
        EntryModel {
            credential: self.credential@,
            failure_count: self.failure_count,
            total_failure_count: self.total_failure_count,
            success_count: self.success_count,
            last_used_at: text_of(self.last_used_at),
            access_expires: self.access_expires,
            disabled_reason: text_of(self.disabled_reason),
        }
    }
}

impl PoolEntry {
    /// A copy of the entry.
    pub fn duplicate(&self) -> (copy: Self)
        ensures
            copy@ == self@,
    {
        PoolEntry {
            credential: self.credential.duplicate(),
            failure_count: self.failure_count,
            total_failure_count: self.total_failure_count,
            success_count: self.success_count,
            last_used_at: copy_text(&self.last_used_at),
            access_expires: self.access_expires,
            disabled_reason: copy_text(&self.disabled_reason),
        }
    }
}

/// Why the pool refuses an operation.
#[derive(Clone, Copy, Debug, PartialEq, Eq, Structural)]
pub enum PoolError {
    /// The pool holds no credential with the id.
    NotFound,
    /// The pool already holds a credential with the id.
    DuplicateId,
    /// The credential has no refresh token.
    MissingRefreshToken,
    /// The credential authenticates by `idc` and lacks the client id or the
    /// client secret.
    MissingClientCredentials,
    /// No id is left to give to the credential.
    OutOfIds,
}

/// What an answer tells of a refusal.
pub open spec fn error_text(e: PoolError) -> Seq<char> {
    match e {
        PoolError::NotFound => "credential not found"@,
        PoolError::DuplicateId => "credential id already in use"@,
        PoolError::MissingRefreshToken => "refresh token is required"@,
        PoolError::MissingClientCredentials => "client id and client secret are required for idc"@,
        PoolError::OutOfIds => "no credential id left"@,
    }
}

impl PoolError {
    /// What an answer tells of the refusal.
    pub fn message(&self) -> (text: String)
        ensures
            text@ == error_text(*self),
    {
        match self {
            PoolError::NotFound => crate::text::owned("credential not found"),
            PoolError::DuplicateId => crate::text::owned("credential id already in use"),
            PoolError::MissingRefreshToken => crate::text::owned("refresh token is required"),
            PoolError::MissingClientCredentials => crate::text::owned(
                "client id and client secret are required for idc",
            ),
            PoolError::OutOfIds => crate::text::owned("no credential id left"),
        }
    }
}

/// The credential pool.
pub struct CredentialPool {
    entries: Vec<PoolEntry>,
}

// ----------------------------------------------------------- specification

pub open spec fn entry_models(v: Seq<PoolEntry>) -> Seq<EntryModel> {
    v.map_values(|e: PoolEntry| e@)
}

/// Whether `a` is preferred to `b`: it has the lower priority number, or the
/// same and the lower id.
pub open spec fn before(a: EntryModel, b: EntryModel) -> bool {
    a.priority() < b.priority() || (a.priority() == b.priority() && a.id() < b.id())
}

/// Whether the entries stand in the order of preference.
pub open spec fn sorted(s: Seq<EntryModel>) -> bool {
    forall|i: int, j: int| 0 <= i < j < s.len() ==> before(#[trigger] s[i], #[trigger] s[j])
}

/// Whether no two entries share an id.
pub open spec fn distinct(s: Seq<EntryModel>) -> bool {
    forall|i: int, j: int| 0 <= i < j < s.len() ==> #[trigger] s[i].id() != #[trigger] s[j].id()
}

/// Whether every entry has an id.
pub open spec fn identified(s: Seq<EntryModel>) -> bool {
    forall|i: int| 0 <= i < s.len() ==> (#[trigger] s[i]).credential.id is Some
}

/// What always holds of the pool: every credential has an id, no id occurs
/// twice, and the credentials stand sorted by priority and, within one
/// priority, by id.
pub open spec fn well_formed(s: Seq<EntryModel>) -> bool {
    identified(s) && distinct(s) && sorted(s)
}

/// The index of the first of the first `n` entries with the given id.
pub open spec fn index_of(s: Seq<EntryModel>, id: u64, n: int) -> Option<int>
    decreases n,
{
    if n <= 0 {
        None
    } else {
        match index_of(s, id, n - 1) {
            Some(i) => Some(i),
            None => if s[n - 1].id() == id {
                Some(n - 1)
            } else {
                None
            },
        }
    }
}

/// Where the entry with the given id stands.
pub open spec fn position(s: Seq<EntryModel>, id: u64) -> Option<int> {
    index_of(s, id, s.len() as int)
}

/// The entry with the given id.
pub open spec fn lookup(s: Seq<EntryModel>, id: u64) -> Option<EntryModel> {
    match position(s, id) {
        Some(i) => Some(s[i]),
        None => None,
    }
}

pub proof fn lemma_index_of(s: Seq<EntryModel>, id: u64, n: int)
    requires
        0 <= n <= s.len(),
    ensures
        match index_of(s, id, n) {
            Some(i) => 0 <= i < n && s[i].id() == id && forall|j: int|
                0 <= j < i ==> s[j].id() != id,
            None => forall|j: int| 0 <= j < n ==> s[j].id() != id,
        },
    decreases n,
{
    if n > 0 {
        lemma_index_of(s, id, n - 1);
    }
}

/// In a pool without repeated ids, an entry is found under its id.
pub proof fn lemma_lookup_finds(s: Seq<EntryModel>, i: int)
    requires
        distinct(s),
        0 <= i < s.len(),
    ensures
        position(s, s[i].id()) == Some(i),
        lookup(s, s[i].id()) == Some(s[i]),
{
    lemma_index_of(s, s[i].id(), s.len() as int);
}

/// Where a new entry goes among the first `n`: before the first entry that
/// it is preferred to.
pub open spec fn slot(s: Seq<EntryModel>, e: EntryModel, n: int) -> int
    decreases n,
{
    if n <= 0 {
        0
    } else if before(s[n - 1], e) {
        n
    } else {
        slot(s, e, n - 1)
    }
}

/// The entries with `e` put in its place.
pub open spec fn placed(s: Seq<EntryModel>, e: EntryModel) -> Seq<EntryModel> {
    s.insert(slot(s, e, s.len() as int), e)
}

/// The entries `items` put in order, one after another.
pub open spec fn arranged(items: Seq<EntryModel>) -> Seq<EntryModel>
    decreases items.len(),
{
    if items.len() == 0 {
        Seq::empty()
    } else {
        placed(arranged(items.drop_last()), items.last())
    }
}

pub proof fn lemma_slot(s: Seq<EntryModel>, e: EntryModel, n: int)
    requires
        0 <= n <= s.len(),
        sorted(s),
    ensures
        0 <= slot(s, e, n) <= n,
        forall|j: int| 0 <= j < slot(s, e, n) ==> before(#[trigger] s[j], e),
        forall|j: int| slot(s, e, n) <= j < n ==> !before(#[trigger] s[j], e),
    decreases n,
{
    if n > 0 {
        if before(s[n - 1], e) {
            assert forall|j: int| 0 <= j < n implies before(#[trigger] s[j], e) by {
                if j < n - 1 {
                    assert(before(s[j], s[n - 1]));
                }
            }
        } else {
            lemma_slot(s, e, n - 1);
        }
    }
}

/// Putting an entry with a new id in its place keeps the pool well-formed,
/// adds the entry and changes no other.
pub proof fn lemma_placed(s: Seq<EntryModel>, e: EntryModel)
    requires
        well_formed(s),
        e.credential.id is Some,
        position(s, e.id()) is None,
    ensures
        well_formed(placed(s, e)),
        placed(s, e).len() == s.len() + 1,
        lookup(placed(s, e), e.id()) == Some(e),
        forall|id: u64| id != e.id() ==> lookup(placed(s, e), id) == lookup(s, id),
{
    let k = slot(s, e, s.len() as int);
    let t = placed(s, e);
    lemma_slot(s, e, s.len() as int);
    lemma_index_of(s, e.id(), s.len() as int);
    assert forall|i: int, j: int| 0 <= i < j < t.len() implies before(
        #[trigger] t[i],
        #[trigger] t[j],
    ) && t[i].id() != t[j].id() by {
        let a = if i < k {
            i
        } else {
            i - 1
        };
        let b = if j < k {
            j
        } else {
            j - 1
        };
        if i == k {
            assert(t[j] == s[b]);
            assert(!before(s[b], e));
            assert(s[b].id() != e.id());
        } else if j == k {
            assert(t[i] == s[a]);
            assert(before(s[a], e));
        } else {
            assert(t[i] == s[a] && t[j] == s[b]);
            assert(before(s[a], s[b]));
        }
    }
    assert(identified(t)) by {
        assert forall|i: int| 0 <= i < t.len() implies (#[trigger] t[i]).credential.id is Some by {
            if i != k {
                let a = if i < k {
                    i
                } else {
                    i - 1
                };
                assert(t[i] == s[a]);
            }
        }
    }
    assert(t[k] == e);
    lemma_lookup_finds(t, k);
    assert forall|id: u64| id != e.id() implies lookup(t, id) == lookup(s, id) by {
        lemma_index_of(s, id, s.len() as int);
        lemma_index_of(t, id, t.len() as int);
        match position(s, id) {
            Some(i) => {
                let i2 = if i < k {
                    i
                } else {
                    i + 1
                };
                assert(t[i2] == s[i]);
                lemma_lookup_finds(t, i2);
            },
            None => {
                match position(t, id) {
                    Some(j) => {
                        let a = if j < k {
                            j
                        } else {
                            j - 1
                        };
                        assert(t[j] == s[a]);
                    },
                    None => {},
                }
            },
        }
    }
}

/// Taking an entry out keeps the pool well-formed and changes no other entry.
pub proof fn lemma_removed(s: Seq<EntryModel>, i: int)
    requires
        well_formed(s),
        0 <= i < s.len(),
    ensures
        well_formed(s.remove(i)),
        lookup(s.remove(i), s[i].id()) is None,
        forall|id: u64| id != s[i].id() ==> lookup(s.remove(i), id) == lookup(s, id),
{
    let t = s.remove(i);
    assert forall|a: int, b: int| 0 <= a < b < t.len() implies before(
        #[trigger] t[a],
        #[trigger] t[b],
    ) && t[a].id() != t[b].id() by {
        let a2 = if a < i {
            a
        } else {
            a + 1
        };
        let b2 = if b < i {
            b
        } else {
            b + 1
        };
        assert(t[a] == s[a2] && t[b] == s[b2]);
        assert(before(s[a2], s[b2]));
    }
    assert(identified(t)) by {
        assert forall|a: int| 0 <= a < t.len() implies (#[trigger] t[a]).credential.id is Some by {
            let a2 = if a < i {
                a
            } else {
                a + 1
            };
            assert(t[a] == s[a2]);
        }
    }
    assert forall|id: u64| lookup(t, id) == if id == s[i].id() {
        None
    } else {
        lookup(s, id)
    } by {
        lemma_index_of(s, id, s.len() as int);
        lemma_index_of(t, id, t.len() as int);
        match position(t, id) {
            Some(j) => {
                let j2 = if j < i {
                    j
                } else {
                    j + 1
                };
                assert(t[j] == s[j2]);
                lemma_lookup_finds(s, j2);
                if id == s[i].id() {
                    assert(s[j2].id() != s[i].id());
                }
            },
            None => {
                match position(s, id) {
                    Some(k) => {
                        if k != i {
                            let k2 = if k < i {
                                k
                            } else {
                                k - 1
                            };
                            assert(t[k2] == s[k]);
                        }
                    },
                    None => {},
                }
            },
        }
    }
}

/// An entry changed in a way that keeps its place in the order stays where it
/// is, and the pool stays well-formed.
pub proof fn lemma_updated_in_place(s: Seq<EntryModel>, i: int, e: EntryModel)
    requires
        well_formed(s),
        0 <= i < s.len(),
        e.credential.id == s[i].credential.id,
        e.priority() == s[i].priority(),
    ensures
        well_formed(s.update(i, e)),
        lookup(s.update(i, e), e.id()) == Some(e),
        forall|id: u64| id != e.id() ==> lookup(s.update(i, e), id) == lookup(s, id),
{
    let t = s.update(i, e);
    assert forall|a: int, b: int| 0 <= a < b < t.len() implies before(
        #[trigger] t[a],
        #[trigger] t[b],
    ) && t[a].id() != t[b].id() by {
        assert(before(s[a], s[b]));
        assert(s[a].id() != s[b].id());
    }
    assert(identified(t)) by {
        assert forall|a: int| 0 <= a < t.len() implies (#[trigger] t[a]).credential.id is Some by {
            assert(s[a].credential.id is Some);
        }
    }
    lemma_lookup_finds(t, i);
    assert forall|id: u64| id != e.id() implies lookup(t, id) == lookup(s, id) by {
        lemma_index_of(s, id, s.len() as int);
        lemma_index_of(t, id, t.len() as int);
        match position(s, id) {
            Some(k) => {
                assert(t[k] == s[k]);
                lemma_lookup_finds(t, k);
            },
            None => {
                match position(t, id) {
                    Some(j) => {
                        assert(s[j].id() == t[j].id());
                    },
                    None => {},
                }
            },
        }
    }
}

/// Looking an id up among the first `n` entries reads those entries only.
pub proof fn lemma_index_of_prefix(s: Seq<EntryModel>, t: Seq<EntryModel>, id: u64, n: int)
    requires
        0 <= n <= s.len(),
        n <= t.len(),
        forall|i: int| 0 <= i < n ==> s[i] == t[i],
    ensures
        index_of(s, id, n) == index_of(t, id, n),
    decreases n,
{
    if n > 0 {
        lemma_index_of_prefix(s, t, id, n - 1);
    }
}

/// Entries put in order make a well-formed pool that holds each of them
/// under its id, and nothing else.
pub proof fn lemma_arranged(items: Seq<EntryModel>)
    requires
        identified(items),
        distinct(items),
    ensures
        well_formed(arranged(items)),
        arranged(items).len() == items.len(),
        forall|id: u64| lookup(arranged(items), id) == lookup(items, id),
    decreases items.len(),
{
    if items.len() > 0 {
        let front = items.drop_last();
        let last = items.last();
        lemma_arranged(front);
        let a = arranged(front);
        lemma_index_of(items, last.id(), items.len() - 1);
        lemma_index_of_prefix(items, front, last.id(), front.len() as int);
        assert(lookup(front, last.id()) is None);
        assert(lookup(a, last.id()) is None);
        assert(items[items.len() - 1].credential.id is Some);
        lemma_placed(a, last);
        assert forall|id: u64| lookup(arranged(items), id) == lookup(items, id) by {
            lemma_index_of_prefix(items, front, id, front.len() as int);
            lemma_index_of(front, id, front.len() as int);
            assert(lookup(a, id) == lookup(front, id));
            if id == last.id() {
                lemma_lookup_finds(items, items.len() - 1);
            } else {
                assert(index_of(items, id, items.len() as int) == index_of(
                    items,
                    id,
                    items.len() - 1,
                ));
                match position(front, id) {
                    Some(i) => {
                        assert(front[i] == items[i]);
                    },
                    None => {},
                }
            }
        }
    }
}

/// An entry after another one was made the preferred one: the chosen entry
/// gets priority 0; every other entry that had priority 0 gets priority 1.
pub open spec fn promoted(e: EntryModel, id: u64) -> EntryModel {
    if e.id() == id {
        e.with_priority(0)
    } else if e.priority() == 0 {
        e.with_priority(1)
    } else {
        e
    }
}

/// The entries after the one with the given id was made the preferred one.
pub open spec fn promoted_all(s: Seq<EntryModel>, id: u64) -> Seq<EntryModel> {
    Seq::new(s.len(), |i: int| promoted(s[i], id))
}

/// Making an entry the preferred one changes priorities only: every entry is
/// still found under its id, changed as `promoted` says.
pub proof fn lemma_promoted_lookup(s: Seq<EntryModel>, id: u64, x: u64)
    requires
        well_formed(s),
    ensures
        identified(promoted_all(s, id)),
        distinct(promoted_all(s, id)),
        lookup(promoted_all(s, id), x) == match lookup(s, x) {
            Some(e) => Some(promoted(e, id)),
            None => None,
        },
{
    let t = promoted_all(s, id);
    assert forall|i: int| 0 <= i < t.len() implies (#[trigger] t[i]).credential.id is Some
        && t[i].id() == s[i].id() by {
        assert(s[i].credential.id is Some);
    }
    assert forall|i: int, j: int| 0 <= i < j < t.len() implies #[trigger] t[i].id()
        != #[trigger] t[j].id() by {
        assert(s[i].id() != s[j].id());
    }
    lemma_index_of(s, x, s.len() as int);
    lemma_index_of(t, x, t.len() as int);
    match position(s, x) {
        Some(i) => {
            assert(t[i].id() == x);
            lemma_lookup_finds(t, i);
        },
        None => {
            match position(t, x) {
                Some(j) => {
                    assert(s[j].id() == t[j].id());
                },
                None => {},
            }
        },
    }
}

/// The largest id among the first `n` entries; 0 where there is none.
pub open spec fn max_id(s: Seq<EntryModel>, n: int) -> u64
    decreases n,
{
    if n <= 0 {
        0
    } else if s[n - 1].id() > max_id(s, n - 1) {
        s[n - 1].id()
    } else {
        max_id(s, n - 1)
    }
}

pub proof fn lemma_max_id(s: Seq<EntryModel>, n: int)
    requires
        0 <= n <= s.len(),
    ensures
        forall|i: int| 0 <= i < n ==> (#[trigger] s[i]).id() <= max_id(s, n),
    decreases n,
{
    if n > 0 {
        lemma_max_id(s, n - 1);
    }
}

/// Why a credential cannot join the pool, if it cannot: it needs a refresh
/// token, and for the method `idc` a client id and a client secret, none of
/// them empty.
pub open spec fn defect(c: CredentialModel) -> Option<PoolError> {
    if c.refresh_token is None || c.refresh_token->0.len() == 0 {
        Some(PoolError::MissingRefreshToken)
    } else if c.auth_method == Some("idc"@) && (c.client_id is None || c.client_id->0.len() == 0
        || c.client_secret is None || c.client_secret->0.len() == 0) {
        Some(PoolError::MissingClientCredentials)
    } else {
        None
    }
}

/// The entry that a credential joins the pool as.
pub open spec fn fresh(c: CredentialModel, id: u64) -> EntryModel {
    EntryModel {
        credential: CredentialModel { id: Some(id), ..c },
        failure_count: 0,
        total_failure_count: 0,
        success_count: 0,
        last_used_at: None,
        access_expires: None,
        disabled_reason: None,
    }
}

/// What adding credential `c` to the pool `s` gives: the id of the new entry
/// and the pool with it, or the reason why the credential is refused. A
/// credential without an id gets the id after the largest one in the pool.
pub open spec fn added(s: Seq<EntryModel>, c: CredentialModel) -> Result<
    (u64, Seq<EntryModel>),
    PoolError,
> {
    match defect(c) {
        Some(e) => Err(e),
        None => match c.id {
            Some(id) => if position(s, id) is Some {
                Err(PoolError::DuplicateId)
            } else {
                Ok((id, placed(s, fresh(c, id))))
            },
            None => if max_id(s, s.len() as int) == u64::MAX {
                Err(PoolError::OutOfIds)
            } else {
                let id = (max_id(s, s.len() as int) + 1) as u64;
                Ok((id, placed(s, fresh(c, id))))
            },
        },
    }
}

// -------------------------------------------------------------------- pool

impl View for CredentialPool {
    type V = Seq<EntryModel>;

    closed spec fn view(&self) -> Seq<EntryModel> {
        entry_models(self.entries@)
    }
}

/// Whether the entry `a` is preferred to the entry `b`.
pub fn is_before(a: &PoolEntry, b: &PoolEntry) -> (r: bool)
    ensures
        r == before(a@, b@),
{
    let ia = match a.credential.id {
        Some(id) => id,
        None => 0,
    };
    let ib = match b.credential.id {
        Some(id) => id,
        None => 0,
    };
    a.credential.priority < b.credential.priority || (a.credential.priority
        == b.credential.priority && ia < ib)
}

/// Puts an entry in its place.
pub fn place(entries: &mut Vec<PoolEntry>, e: PoolEntry)
    ensures
        entry_models(final(entries)@) == placed(entry_models(old(entries)@), e@),
{
    let ghost s = entry_models(entries@);
    let mut n: usize = entries.len();
    while n > 0 && !is_before(&entries[n - 1], &e)
        invariant
            n <= entries.len(),
            s == entry_models(entries@),
            slot(s, e@, s.len() as int) == slot(s, e@, n as int),
        decreases n,
    {
        proof {
            assert(s[n - 1] == entries@[n - 1]@);
        }
        n = n - 1;
    }
    proof {
        if n > 0 {
            assert(s[n - 1] == entries@[n - 1]@);
        }
    }
    let ghost shown = e@;
    entries.insert(n, e);
    proof {
        assert(entry_models(entries@) =~= s.insert(n as int, shown));
    }
}

/// Why a credential cannot join a pool, if it cannot.
pub fn check_credential(c: &KiroCredentials) -> (problem: Option<PoolError>)
    ensures
        problem == defect(c@),
{
    let has_token = match &c.refresh_token {
        Some(t) => t.as_str().unicode_len() > 0,
        None => false,
    };
    if !has_token {
        return Some(PoolError::MissingRefreshToken);
    }
    let idc = match &c.auth_method {
        Some(m) => str_eq(m.as_str(), "idc"),
        None => false,
    };
    if idc {
        let has_id = match &c.client_id {
            Some(t) => t.as_str().unicode_len() > 0,
            None => false,
        };
        let has_secret = match &c.client_secret {
            Some(t) => t.as_str().unicode_len() > 0,
            None => false,
        };
        if !has_id || !has_secret {
            return Some(PoolError::MissingClientCredentials);
        }
    }
    None
}

impl CredentialPool {
    /// A pool without credentials.
    pub fn new() -> (pool: Self)
        ensures
            pool@ == Seq::<EntryModel>::empty(),
            well_formed(pool@),
    {
        let pool = CredentialPool { entries: Vec::new() };
        proof {
            assert(entry_models(pool.entries@) =~= Seq::<EntryModel>::empty());
        }
        pool
    }

    /// How many credentials the pool holds.
    pub fn len(&self) -> (n: usize)
        ensures
            n == self@.len(),
    {
        self.entries.len()
    }

    /// Copies of all entries, in the order of preference.
    pub fn get_all(&self) -> (all: Vec<PoolEntry>)
        ensures
            entry_models(all@) == self@,
    {
        let mut all: Vec<PoolEntry> = Vec::new();
        let mut i: usize = 0;
        while i < self.entries.len()
            invariant
                i <= self.entries.len(),
                all@.len() == i,
                forall|j: int| 0 <= j < i ==> all@[j]@ == self.entries@[j]@,
            decreases self.entries.len() - i,
        {
            all.push(self.entries[i].duplicate());
            i = i + 1;
        }
        proof {
            assert(entry_models(all@) =~= entry_models(self.entries@));
        }
        all
    }

    /// Where the entry with the given id stands.
    pub fn locate(&self, id: u64) -> (at: Option<usize>)
        ensures
            match at {
                Some(i) => position(self@, id) == Some(i as int) && i < self@.len(),
                None => position(self@, id) is None,
            },
    {
        let mut i: usize = 0;
        while i < self.entries.len()
            invariant
                i <= self.entries.len(),
                index_of(self@, id, i as int) is None,
            decreases self.entries.len() - i,
        {
            proof {
                assert(self@[i as int] == self.entries@[i as int]@);
            }
            let here = match self.entries[i].credential.id {
                Some(x) => x,
                None => 0,
            };
            if here == id {
                proof {
                    lemma_index_of(self@, id, i + 1);
                    lemma_index_of(self@, id, self@.len() as int);
                }
                return Some(i);
            }
            i = i + 1;
        }
        None
    }

    /// A copy of the entry with the given id.
    pub fn get(&self, id: u64) -> (entry: Option<PoolEntry>)
        ensures
            match entry {
                Some(e) => lookup(self@, id) == Some(e@),
                None => lookup(self@, id) is None,
            },
    {
        match self.locate(id) {
            Some(i) => {
                proof {
                    assert(self@[i as int] == self.entries@[i as int]@);
                }
                Some(self.entries[i].duplicate())
            },
            None => None,
        }
    }

    /// Replaces the entry at position `at` by one with the same id and
    /// priority.
    pub fn update_in_place(&mut self, at: usize, entry: PoolEntry)
        requires
            well_formed(old(self)@),
            at < old(self)@.len(),
            entry@.credential.id == old(self)@[at as int].credential.id,
            entry@.priority() == old(self)@[at as int].priority(),
        ensures
            well_formed(final(self)@),
            final(self)@ == old(self)@.update(at as int, entry@),
            lookup(final(self)@, entry@.id()) == Some(entry@),
            forall|x: u64| x != entry@.id() ==> lookup(final(self)@, x) == lookup(old(self)@, x),
    {
        let ghost s = self@;
        let ghost shown = entry@;
        self.entries.set(at, entry);
        proof {
            assert(self@ =~= s.update(at as int, shown));
            lemma_updated_in_place(s, at as int, shown);
        }
    }

    /// Disables or enables the credential with the given id.
    pub fn set_disabled(&mut self, id: u64, disabled: bool) -> (done: Result<(), PoolError>)
        requires
            well_formed(old(self)@),
        ensures
            well_formed(final(self)@),
            match done {
                Ok(_) => {
                    let at = position(old(self)@, id);
                    at is Some && final(self)@ == old(self)@.update(
                        at->0,
                        old(self)@[at->0].with_disabled(disabled),
                    )
                },
                Err(e) => e == PoolError::NotFound && position(old(self)@, id) is None
                    && final(self)@ == old(self)@,
            },
    {
        match self.locate(id) {
            Some(i) => {
                let ghost s = self@;
                let mut e = self.entries.remove(i);
                proof {
                    assert(e@ == s[i as int]);
                }
                e.credential.disabled = disabled;
                e.disabled_reason = None;
                let ghost shown = e@;
                self.entries.insert(i, e);
                proof {
                    assert(self@ =~= s.update(i as int, shown));
                    lemma_updated_in_place(s, i as int, shown);
                }
                Ok(())
            },
            None => Err(PoolError::NotFound),
        }
    }

    /// Forgets the failures of the credential with the given id and enables
    /// it.
    pub fn reset(&mut self, id: u64) -> (done: Result<(), PoolError>)
        requires
            well_formed(old(self)@),
        ensures
            well_formed(final(self)@),
            match done {
                Ok(_) => {
                    let at = position(old(self)@, id);
                    at is Some && final(self)@ == old(self)@.update(
                        at->0,
                        (EntryModel { failure_count: 0, ..old(self)@[at->0] }).with_disabled(
                            false,
                        ),
                    )
                },
                Err(e) => e == PoolError::NotFound && position(old(self)@, id) is None
                    && final(self)@ == old(self)@,
            },
    {
        match self.locate(id) {
            Some(i) => {
                let ghost s = self@;
                let mut e = self.entries.remove(i);
                proof {
                    assert(e@ == s[i as int]);
                }
                e.failure_count = 0;
                e.credential.disabled = false;
                e.disabled_reason = None;
                let ghost shown = e@;
                self.entries.insert(i, e);
                proof {
                    assert(self@ =~= s.update(i as int, shown));
                    lemma_updated_in_place(s, i as int, shown);
                }
                Ok(())
            },
            None => Err(PoolError::NotFound),
        }
    }

    /// Gives the credential with the given id another priority and moves it
    /// to its new place.
    pub fn set_priority(&mut self, id: u64, priority: u32) -> (done: Result<(), PoolError>)
        requires
            well_formed(old(self)@),
        ensures
            well_formed(final(self)@),
            match done {
                Ok(_) => {
                    let at = position(old(self)@, id);
                    at is Some && final(self)@ == placed(
                        old(self)@.remove(at->0),
                        old(self)@[at->0].with_priority(priority),
                    )
                },
                Err(e) => e == PoolError::NotFound && position(old(self)@, id) is None
                    && final(self)@ == old(self)@,
            },
    {
        match self.locate(id) {
            Some(i) => {
                let ghost s = self@;
                let mut e = self.entries.remove(i);
                proof {
                    assert(e@ == s[i as int]);
                    assert(self@ =~= s.remove(i as int));
                    lemma_index_of(s, id, s.len() as int);
                    lemma_removed(s, i as int);
                }
                e.credential.priority = priority;
                proof {
                    lemma_placed(s.remove(i as int), e@);
                }
                place(&mut self.entries, e);
                Ok(())
            },
            None => Err(PoolError::NotFound),
        }
    }

    /// Makes the credential with the given id the preferred one: it gets
    /// priority 0, and every other credential that had priority 0 gets
    /// priority 1.
    pub fn set_primary(&mut self, id: u64) -> (done: Result<(), PoolError>)
        requires
            well_formed(old(self)@),
        ensures
            well_formed(final(self)@),
            match done {
                Ok(_) => {
                    &&& position(old(self)@, id) is Some
                    &&& final(self)@ == arranged(promoted_all(old(self)@, id))
                    &&& final(self)@.len() == old(self)@.len()
                    &&& forall|x: u64|
                        lookup(final(self)@, x) == match lookup(old(self)@, x) {
                            Some(e) => Some(promoted(e, id)),
                            None => None,
                        }
                },
                Err(e) => e == PoolError::NotFound && position(old(self)@, id) is None
                    && final(self)@ == old(self)@,
            },
    {
        if self.locate(id).is_none() {
            return Err(PoolError::NotFound);
        }
        let ghost s = self@;
        let ghost items = promoted_all(s, id);
        let mut rest: Vec<PoolEntry> = Vec::new();
        std::mem::swap(&mut self.entries, &mut rest);
        let mut out: Vec<PoolEntry> = Vec::new();
        proof {
            assert(items.take(0) =~= Seq::<EntryModel>::empty());
            assert(entry_models(out@) =~= arranged(items.take(0)));
        }
        for e in it: rest
            invariant
                entry_models(it.seq()) == s,
                items == promoted_all(s, id),
                entry_models(out@) == arranged(items.take(it.index() as int)),
        {
            let ghost k = it.index() as int;
            proof {
                assert(s[k] == e@);
                assert(items.take(k + 1).drop_last() =~= items.take(k));
                assert(items.take(k + 1).last() == promoted(s[k], id));
            }
            let mut e = e;
            let here = match e.credential.id {
                Some(x) => x,
                None => 0,
            };
            if here == id {
                e.credential.priority = 0;
            } else if e.credential.priority == 0 {
                e.credential.priority = 1;
            }
            place(&mut out, e);
        }
        self.entries = out;
        proof {
            assert(items.take(items.len() as int) =~= items);
            lemma_promoted_lookup(s, id, id);
            lemma_arranged(items);
            assert forall|x: u64|
                lookup(self@, x) == match lookup(s, x) {
                    Some(e) => Some(promoted(e, id)),
                    None => None,
                } by {
                lemma_promoted_lookup(s, id, x);
            }
        }
        Ok(())
    }

    /// The largest id in the pool; 0 where the pool is empty.
    pub fn largest_id(&self) -> (id: u64)
        ensures
            id == max_id(self@, self@.len() as int),
    {
        let mut best: u64 = 0;
        let mut i: usize = 0;
        while i < self.entries.len()
            invariant
                i <= self.entries.len(),
                best == max_id(self@, i as int),
            decreases self.entries.len() - i,
        {
            proof {
                assert(self@[i as int] == self.entries@[i as int]@);
            }
            let here = match self.entries[i].credential.id {
                Some(x) => x,
                None => 0,
            };
            if here > best {
                best = here;
            }
            i = i + 1;
        }
        best
    }

    /// Adds a credential and returns its id. The credential starts with a
    /// clean record.
    pub fn add(&mut self, credential: KiroCredentials) -> (done: Result<u64, PoolError>)
        requires
            well_formed(old(self)@),
        ensures
            well_formed(final(self)@),
            match done {
                Ok(id) => added(old(self)@, credential@) == Ok::<
                    (u64, Seq<EntryModel>),
                    PoolError,
                >((id, final(self)@)) && lookup(final(self)@, id) == Some(
                    fresh(credential@, id),
                ) && final(self)@.len() == old(self)@.len() + 1,
                Err(e) => added(old(self)@, credential@) == Err::<
                    (u64, Seq<EntryModel>),
                    PoolError,
                >(e) && final(self)@ == old(self)@,
            },
    {
        match check_credential(&credential) {
            Some(e) => {
                return Err(e);
            },
            None => {},
        }
        let id = match credential.id {
            Some(id) => {
                if self.locate(id).is_some() {
                    return Err(PoolError::DuplicateId);
                }
                id
            },
            None => {
                let largest = self.largest_id();
                if largest == u64::MAX {
                    return Err(PoolError::OutOfIds);
                }
                proof {
                    lemma_max_id(self@, self@.len() as int);
                    lemma_index_of(self@, (largest + 1) as u64, self@.len() as int);
                }
                largest + 1
            },
        };
        let mut credential = credential;
        credential.id = Some(id);
        let entry = PoolEntry {
            credential,
            failure_count: 0,
            total_failure_count: 0,
            success_count: 0,
            last_used_at: None,
            access_expires: None,
            disabled_reason: None,
        };
        proof {
            lemma_placed(self@, entry@);
        }
        place(&mut self.entries, entry);
        Ok(id)
    }

    /// Takes the credential with the given id out of the pool.
    pub fn delete(&mut self, id: u64) -> (done: Result<(), PoolError>)
        requires
            well_formed(old(self)@),
        ensures
            well_formed(final(self)@),
            match done {
                Ok(_) => {
                    let at = position(old(self)@, id);
                    at is Some && final(self)@ == old(self)@.remove(at->0) && lookup(
                        final(self)@,
                        id,
                    ) is None
                },
                Err(e) => e == PoolError::NotFound && position(old(self)@, id) is None
                    && final(self)@ == old(self)@,
            },
    {
        match self.locate(id) {
            Some(i) => {
                let ghost s = self@;
                self.entries.remove(i);
                proof {
                    assert(self@ =~= s.remove(i as int));
                    lemma_index_of(s, id, s.len() as int);
                    lemma_removed(s, i as int);
                }
                Ok(())
            },
            None => Err(PoolError::NotFound),
        }
    }
}

/// After a credential was made the preferred one it has priority 0, and every
/// other credential that had priority 0 before has priority 1; all others
/// keep their priority.
pub proof fn lemma_set_primary(s: Seq<EntryModel>, id: u64, x: u64)
    requires
        well_formed(s),
        lookup(s, id) is Some,
        lookup(s, x) is Some,
    ensures
        well_formed(arranged(promoted_all(s, id))),
        lookup(arranged(promoted_all(s, id)), id)->0.priority() == 0,
        x != id && lookup(s, x)->0.priority() == 0 ==> lookup(
            arranged(promoted_all(s, id)),
            x,
        )->0.priority() == 1,
        x != id && lookup(s, x)->0.priority() != 0 ==> lookup(
            arranged(promoted_all(s, id)),
            x,
        )->0.priority() == lookup(s, x)->0.priority(),
{
    lemma_promoted_lookup(s, id, id);
    lemma_promoted_lookup(s, id, x);
    lemma_arranged(promoted_all(s, id));
    lemma_index_of(s, id, s.len() as int);
    lemma_index_of(s, x, s.len() as int);
}

} // verus!
