//! The store of inbound API keys: entries with a label and permissions, looked
//! up by id for administration and by key text for authentication.

use vstd::prelude::*;
use crate::clock::now_rfc3339;
use crate::text::chars_of;
use crate::text::constant_time_eq;
use crate::text::decimal;
use crate::text::decimal_string;
use crate::text::is_blank;
use crate::text::slice_text_of;
use crate::text::string_of_range;
use crate::text::text_of;
use crate::text::trim_text;
use crate::text::trimmed;
use vstd::string::StringSliceAdditionalSpecFns;

verus! {

// ------------------------------------------------------------------ models

/// The texts of a list of strings.
pub open spec fn names_of(v: Seq<String>) -> Seq<Seq<char>> {
    v.map_values(|s: String| s@)
}

/// The model of an optional model whitelist.
pub open spec fn whitelist_of(models: Option<Vec<String>>) -> Option<Seq<Seq<char>>> {
    match models {
        Some(v) => Some(names_of(v@)),
        None => None,
    }
}

/// The model of an optional list of credential ids.
pub open spec fn bindings_of(ids: Option<Vec<u64>>) -> Option<Seq<u64>> {
    match ids {
        Some(v) => Some(v@),
        None => None,
    }
}

/// One stored key, as contracts see it.
pub struct EntryModel {
    pub id: u64,
    pub key: Seq<char>,
    pub label: Seq<char>,
    pub read_only: bool,
    pub allowed_models: Option<Seq<Seq<char>>>,
    pub bound_credential_ids: Option<Seq<u64>>,
    pub disabled: bool,
    pub created_at: Seq<char>,
}

/// What authentication hands to a request handler, as contracts see it.
pub struct InfoModel {
    pub id: u64,
    pub label: Seq<char>,
    pub read_only: bool,
    pub allowed_models: Option<Seq<Seq<char>>>,
    pub bound_credential_ids: Option<Seq<u64>>,
}

/// The display form of a stored key, as contracts see it.
pub struct DisplayModel {
    pub id: u64,
    pub key: Seq<char>,
    pub full_key: Seq<char>,
    pub key_length: nat,
    pub label: Seq<char>,
    pub read_only: bool,
    pub allowed_models: Option<Seq<Seq<char>>>,
    pub disabled: bool,
    pub created_at: Seq<char>,
}

/// The whole store, as contracts see it.
pub struct StoreModel {
    pub next_id: u64,
    pub entries: Seq<EntryModel>,
}

// ------------------------------------------------------------------- types

/// One stored API key.
#[derive(Clone, Debug)]
pub struct ApiKeyEntry {
    /// Unique id.
    pub id: u64,
    /// The key text itself.
    pub key: String,
    /// What the key is used for.
    pub label: String,
    /// Whether the key may only read the model list.
    pub read_only: bool,
    /// The models the key may use; `None` allows all.
    pub allowed_models: Option<Vec<String>>,
    /// The upstream credentials the key may be routed to; `None` allows all.
    pub bound_credential_ids: Option<Vec<u64>>,
    /// Whether the key is switched off.
    pub disabled: bool,
    /// Creation time in RFC 3339 form.
    pub created_at: String,
}

impl View for ApiKeyEntry {
    type V = EntryModel;

    open spec fn view(&self) -> EntryModel {
        EntryModel {
            id: self.id,
            key: self.key@,
            label: self.label@,
            read_only: self.read_only,
            allowed_models: whitelist_of(self.allowed_models),
            bound_credential_ids: bindings_of(self.bound_credential_ids),
            disabled: self.disabled,
            created_at: self.created_at@,
        }
    }
}

/// What a request handler learns of an authenticated key. The key text is not
/// part of it.
#[derive(Clone, Debug)]
pub struct ApiKeyInfo {
    pub id: u64,
    pub label: String,
    pub read_only: bool,
    pub allowed_models: Option<Vec<String>>,
    pub bound_credential_ids: Option<Vec<u64>>,
}

impl View for ApiKeyInfo {
    type V = InfoModel;

    open spec fn view(&self) -> InfoModel {
        InfoModel {
            id: self.id,
            label: self.label@,
            read_only: self.read_only,
            allowed_models: whitelist_of(self.allowed_models),
            bound_credential_ids: bindings_of(self.bound_credential_ids),
        }
    }
}

/// A stored key prepared for display: the key masked, and in full for copying.
#[derive(Clone, Debug)]
pub struct ApiKeyEntryView {
    pub id: u64,
    /// The masked key.
    pub key: String,
    /// The key in full.
    pub full_key: String,
    /// The length of the key in bytes.
    pub key_length: usize,
    pub label: String,
    pub read_only: bool,
    pub allowed_models: Option<Vec<String>>,
    pub disabled: bool,
    pub created_at: String,
}

impl View for ApiKeyEntryView {
    type V = DisplayModel;

    open spec fn view(&self) -> DisplayModel {
        DisplayModel {
            id: self.id,
            key: self.key@,
            full_key: self.full_key@,
            key_length: self.key_length as nat,
            label: self.label@,
            read_only: self.read_only,
            allowed_models: whitelist_of(self.allowed_models),
            disabled: self.disabled,
            created_at: self.created_at@,
        }
    }
}

/// The API key store.
pub struct ApiKeyStore {
    next_id: u64,
    entries: Vec<ApiKeyEntry>,
}

// ----------------------------------------------------------- specification

/// The models of a list of entries.
pub open spec fn entry_models(v: Seq<ApiKeyEntry>) -> Seq<EntryModel> {
    v.map_values(|e: ApiKeyEntry| e@)
}

/// The three asterisks that stand for the hidden part of a key.
pub open spec fn stars() -> Seq<char> {
    seq!['*', '*', '*']
}

/// A key with its middle hidden: the first six and the last three characters
/// around `***`; of a key of at most nine characters, the first two and `***`.
pub open spec fn masked(key: Seq<char>) -> Seq<char> {
    if key.len() <= 9 {
        key.take(if key.len() < 2 { key.len() as int } else { 2 }) + stars()
    } else {
        key.take(6) + stars() + key.skip(key.len() - 3)
    }
}

/// What authentication reveals of an entry.
pub open spec fn info_of(e: EntryModel) -> InfoModel {
    InfoModel {
        id: e.id,
        label: e.label,
        read_only: e.read_only,
        allowed_models: e.allowed_models,
        bound_credential_ids: e.bound_credential_ids,
    }
}

/// The display form of an entry.
pub open spec fn display_of(e: EntryModel) -> DisplayModel {
    DisplayModel {
        id: e.id,
        key: masked(e.key),
        full_key: e.key,
        key_length: vstd::utf8::encode_utf8(e.key).len(),
        label: e.label,
        read_only: e.read_only,
        allowed_models: e.allowed_models,
        disabled: e.disabled,
        created_at: e.created_at,
    }
}

/// Whether entry `e` lets the key text `key` in.
pub open spec fn admits(e: EntryModel, key: Seq<char>) -> bool {
    !e.disabled && e.key == key
}

/// The index of the first of the first `n` entries that lets `key` in.
pub open spec fn first_admitting(entries: Seq<EntryModel>, key: Seq<char>, n: int) -> Option<int>
    decreases n,
{
    if n <= 0 {
        None
    } else {
        match first_admitting(entries, key, n - 1) {
            Some(i) => Some(i),
            None => if admits(entries[n - 1], key) {
                Some(n - 1)
            } else {
                None
            },
        }
    }
}

/// The index of the first of the first `n` entries with the given id.
pub open spec fn first_with_id(entries: Seq<EntryModel>, id: u64, n: int) -> Option<int>
    decreases n,
{
    if n <= 0 {
        None
    } else {
        match first_with_id(entries, id, n - 1) {
            Some(i) => Some(i),
            None => if entries[n - 1].id == id {
                Some(n - 1)
            } else {
                None
            },
        }
    }
}

/// The position of the entry with the given id, the first one should several
/// share it.
pub open spec fn position_of(entries: Seq<EntryModel>, id: u64) -> Option<int> {
    first_with_id(entries, id, entries.len() as int)
}

/// `first_admitting` gives the least admitting index below `n`, if any.
pub proof fn lemma_first_admitting(entries: Seq<EntryModel>, key: Seq<char>, n: int)
    requires
        0 <= n <= entries.len(),
    ensures
        match first_admitting(entries, key, n) {
            Some(i) => 0 <= i < n && admits(entries[i], key) && forall|j: int|
                0 <= j < i ==> !admits(entries[j], key),
            None => forall|j: int| 0 <= j < n ==> !admits(entries[j], key),
        },
    decreases n,
{
    if n > 0 {
        lemma_first_admitting(entries, key, n - 1);
    }
}

/// `first_with_id` gives the least index below `n` holding the id, if any.
pub proof fn lemma_first_with_id(entries: Seq<EntryModel>, id: u64, n: int)
    requires
        0 <= n <= entries.len(),
    ensures
        match first_with_id(entries, id, n) {
            Some(i) => 0 <= i < n && entries[i].id == id && forall|j: int|
                0 <= j < i ==> entries[j].id != id,
            None => forall|j: int| 0 <= j < n ==> entries[j].id != id,
        },
    decreases n,
{
    if n > 0 {
        lemma_first_with_id(entries, id, n - 1);
    }
}

/// The message for an id that the store does not hold.
pub open spec fn missing_text(id: u64) -> Seq<char> {
    "API Key #"@ + decimal(id as nat) + " 不存在"@
}

/// What an update asks for: for each field, `None` leaves it alone.
pub struct ChangeModel {
    pub key: Option<Seq<char>>,
    pub label: Option<Seq<char>>,
    pub read_only: Option<bool>,
    pub allowed_models: Option<Option<Seq<Seq<char>>>>,
    pub disabled: Option<bool>,
    pub bound_credential_ids: Option<Option<Seq<u64>>>,
}

/// The change that the arguments of `update` describe.
pub open spec fn change_of(
    key: Option<String>,
    label: Option<String>,
    read_only: Option<bool>,
    allowed_models: Option<Option<Vec<String>>>,
    disabled: Option<bool>,
    bound_credential_ids: Option<Option<Vec<u64>>>,
) -> ChangeModel {
    ChangeModel {
        key: text_of(key),
        label: text_of(label),
        read_only,
        allowed_models: match allowed_models {
            Some(m) => Some(whitelist_of(m)),
            None => None,
        },
        disabled,
        bound_credential_ids: match bound_credential_ids {
            Some(b) => Some(bindings_of(b)),
            None => None,
        },
    }
}

/// Entry `e` after the change `c`. A new key is trimmed first and ignored if
/// nothing is left of it.
pub open spec fn changed(e: EntryModel, c: ChangeModel) -> EntryModel {
    EntryModel {
        id: e.id,
        key: match c.key {
            Some(k) => if is_blank(k) {
                e.key
            } else {
                trim_text(k)
            },
            None => e.key,
        },
        label: match c.label {
            Some(l) => l,
            None => e.label,
        },
        read_only: match c.read_only {
            Some(r) => r,
            None => e.read_only,
        },
        allowed_models: match c.allowed_models {
            Some(m) => m,
            None => e.allowed_models,
        },
        bound_credential_ids: match c.bound_credential_ids {
            Some(b) => b,
            None => e.bound_credential_ids,
        },
        disabled: match c.disabled {
            Some(d) => d,
            None => e.disabled,
        },
        created_at: e.created_at,
    }
}

/// The entries that do not have the given id, in their order.
pub open spec fn without_id(entries: Seq<EntryModel>, id: u64) -> Seq<EntryModel> {
    entries.filter(|e: EntryModel| e.id != id)
}

/// The entry that `add` creates.
pub open spec fn fresh_entry(
    id: u64,
    key: Seq<char>,
    label: Seq<char>,
    read_only: bool,
    allowed_models: Option<Seq<Seq<char>>>,
    created_at: Seq<char>,
) -> EntryModel {
    EntryModel {
        id,
        key,
        label,
        read_only,
        allowed_models,
        bound_credential_ids: None,
        disabled: false,
        created_at,
    }
}

/// The store that a legacy single key turns into: one entry labelled
/// `Default` with id 1 when the key is not blank, an empty store otherwise.
pub open spec fn migrated(legacy: Option<Seq<char>>, created_at: Seq<char>) -> StoreModel {
    match legacy {
        Some(key) => if is_blank(key) {
            StoreModel { next_id: 1, entries: Seq::empty() }
        } else {
            StoreModel {
                next_id: 2,
                entries: seq![fresh_entry(1, key, "Default"@, false, None, created_at)],
            }
        },
        None => StoreModel { next_id: 1, entries: Seq::empty() },
    }
}

// ------------------------------------------------------------------ copies

/// A copy of a list of strings.
pub fn copy_names(v: &Vec<String>) -> (out: Vec<String>)
    ensures
        names_of(out@) == names_of(v@),
{
    let mut out: Vec<String> = Vec::new();
    let mut i: usize = 0;
    while i < v.len()
        invariant
            i <= v.len(),
            out@.len() == i,
            forall|j: int| 0 <= j < i ==> out@[j]@ == v@[j]@,
        decreases v.len() - i,
    {
        let s = v[i].clone();
        out.push(s);
        i = i + 1;
    }
    proof {
        assert(names_of(out@) =~= names_of(v@));
    }
    out
}

/// A copy of an optional model whitelist.
pub fn copy_whitelist(models: &Option<Vec<String>>) -> (out: Option<Vec<String>>)
    ensures
        whitelist_of(out) == whitelist_of(*models),
{
    match models {
        Some(v) => Some(copy_names(v)),
        None => None,
    }
}

/// A copy of a list of ids.
pub fn copy_ids(v: &Vec<u64>) -> (out: Vec<u64>)
    ensures
        out@ == v@,
{
    let mut out: Vec<u64> = Vec::new();
    let mut i: usize = 0;
    while i < v.len()
        invariant
            i <= v.len(),
            out@ == v@.take(i as int),
        decreases v.len() - i,
    {
        out.push(v[i]);
        i = i + 1;
        proof {
            assert(v@.take(i as int) == v@.take(i - 1).push(v@[i - 1]));
        }
    }
    proof {
        assert(v@.take(v@.len() as int) == v@);
    }
    out
}

/// A copy of an optional list of credential ids.
pub fn copy_bindings(ids: &Option<Vec<u64>>) -> (out: Option<Vec<u64>>)
    ensures
        bindings_of(out) == bindings_of(*ids),
{
    match ids {
        Some(v) => Some(copy_ids(v)),
        None => None,
    }
}

// ------------------------------------------------------------- permissions

impl InfoModel {
    /// Whether the key may use the model: it may if it has no whitelist, or
    /// if the whitelist names the model.
    pub open spec fn allows_model(self, model: Seq<char>) -> bool {
        match self.allowed_models {
            Some(models) => models.contains(model),
            None => true,
        }
    }

    /// Whether the key may be routed to the credential: it may if it is not
    /// bound, or if it is bound to the credential.
    pub open spec fn allows_credential(self, id: u64) -> bool {
        match self.bound_credential_ids {
            Some(ids) => ids.contains(id),
            None => true,
        }
    }
}

impl ApiKeyInfo {
    /// Whether the key may use the model.
    pub fn allows_model(&self, model: &str) -> (allowed: bool)
        ensures
            allowed == self@.allows_model(model@),
    {
        match &self.allowed_models {
            Some(models) => {
                let mut i: usize = 0;
                while i < models.len()
                    invariant
                        i <= models.len(),
                        self@.allowed_models == Some(names_of(models@)),
                        forall|j: int| 0 <= j < i ==> names_of(models@)[j] != model@,
                    decreases models.len() - i,
                {
                    if crate::text::str_eq(models[i].as_str(), model) {
                        proof {
                            assert(names_of(models@)[i as int] == model@);
                        }
                        return true;
                    }
                    i = i + 1;
                }
                false
            },
            None => true,
        }
    }

    /// Whether the key may be routed to the credential.
    pub fn allows_credential(&self, id: u64) -> (allowed: bool)
        ensures
            allowed == self@.allows_credential(id),
    {
        match &self.bound_credential_ids {
            Some(ids) => {
                let mut i: usize = 0;
                while i < ids.len()
                    invariant
                        i <= ids.len(),
                        self@.bound_credential_ids == Some(ids@),
                        forall|j: int| 0 <= j < i ==> ids@[j] != id,
                    decreases ids.len() - i,
                {
                    if ids[i] == id {
                        return true;
                    }
                    i = i + 1;
                }
                false
            },
            None => true,
        }
    }

    /// Whether the key may do more than list the models.
    pub fn allows_requests(&self) -> (allowed: bool)
        ensures
            allowed == !self@.read_only,
    {
        !self.read_only
    }
}

// ----------------------------------------------------------------- masking

/// Hides the middle of a key for display.
pub fn mask_key(key: &str) -> (out: String)
    ensures
        out@ == masked(key@),
{
    let v = chars_of(key);
    let len = v.len();
    if len <= 9 {
        let keep: usize = if len < 2 { len } else { 2 };
        let mut out = string_of_range(&v, 0, keep);
        out.append("***");
        proof {
            reveal_strlit("***");
            assert("***"@ == stars());
            assert(v@.subrange(0, keep as int) == v@.take(keep as int));
        }
        out
    } else {
        let mut out = string_of_range(&v, 0, 6);
        out.append("***");
        let tail = string_of_range(&v, len - 3, len);
        out.append(tail.as_str());
        proof {
            reveal_strlit("***");
            assert("***"@ == stars());
            assert(v@.subrange(0, 6) == v@.take(6));
            assert(v@.subrange(len - 3, len as int) == v@.skip(len - 3));
        }
        out
    }
}

// ------------------------------------------------------------------- store

impl View for ApiKeyStore {
    type V = StoreModel;

    closed spec fn view(&self) -> StoreModel {
        StoreModel { next_id: self.next_id, entries: entry_models(self.entries@) }
    }
}

impl StoreModel {
    /// No id occurs twice and every id lies below the next one to hand out.
    pub open spec fn wf(self) -> bool {
        &&& forall|i: int, j: int|
            0 <= i < j < self.entries.len() ==> self.entries[i].id != self.entries[j].id
        &&& forall|i: int| 0 <= i < self.entries.len() ==> self.entries[i].id < self.next_id
    }

    /// Whether some entry lets the key text in.
    pub open spec fn accepts(self, key: Seq<char>) -> bool {
        exists|i: int| 0 <= i < self.entries.len() && admits(self.entries[i], key)
    }
}

impl ApiKeyStore {
    /// An empty store whose first key will get id 1.
    pub fn new() -> (store: Self)
        ensures
            store@ == (StoreModel { next_id: 1, entries: Seq::empty() }),
            store@.wf(),
    {
        let store = ApiKeyStore { next_id: 1, entries: Vec::new() };
        proof {
            assert(entry_models(store.entries@) == Seq::<EntryModel>::empty());
        }
        store
    }

    /// A store holding what was saved earlier.
    pub fn from_parts(next_id: u64, entries: Vec<ApiKeyEntry>) -> (store: Self)
        ensures
            store@ == (StoreModel { next_id, entries: entry_models(entries@) }),
    {
        ApiKeyStore { next_id, entries }
    }

    /// The id that the next added key will get.
    pub fn next_id(&self) -> (id: u64)
        ensures
            id == self@.next_id,
    {
        self.next_id
    }

    /// The stored entries, in order.
    pub fn entries(&self) -> (entries: &Vec<ApiKeyEntry>)
        ensures
            entry_models(entries@) == self@.entries,
    {
        &self.entries
    }

    /// The store that stands in for a legacy configuration with a single key,
    /// created at the given time.
    pub fn migrate_at(legacy_api_key: Option<&str>, created_at: String) -> (store: Self)
        ensures
            store@ == migrated(
                slice_text_of(legacy_api_key),
                created_at@,
            ),
            store@.wf(),
    {
        let mut store = ApiKeyStore::new();
        match legacy_api_key {
            Some(key) => {
                if !crate::text::blank(key) {
                    let entry = ApiKeyEntry {
                        id: 1,
                        key: crate::text::owned(key),
                        label: crate::text::owned("Default"),
                        read_only: false,
                        allowed_models: None,
                        bound_credential_ids: None,
                        disabled: false,
                        created_at,
                    };
                    let ghost model = entry@;
                    store.entries.push(entry);
                    store.next_id = 2;
                    proof {
                        assert(entry_models(store.entries@) == seq![model]);
                    }
                }
            },
            None => {},
        }
        store
    }

    /// The store that stands in for a legacy configuration with a single key,
    /// created now.
    pub fn migrate(legacy_api_key: Option<&str>) -> (store: Self)
        ensures
            store@.wf(),
            exists|created_at: Seq<char>|
                store@ == migrated(
                    slice_text_of(legacy_api_key),
                    created_at,
                ),
    {
        let created_at = now_rfc3339();
        let ghost stamp = created_at@;
        let store = ApiKeyStore::migrate_at(legacy_api_key, created_at);
        proof {
            assert(store@ == migrated(
                slice_text_of(legacy_api_key),
                stamp,
            ));
        }
        store
    }

    /// Looks a key text up among the enabled entries. The result describes the
    /// first entry that holds the key, and never contains the key itself. All
    /// entries are compared, whichever matches.
    pub fn authenticate(&self, key: &str) -> (found: Option<ApiKeyInfo>)
        ensures
            found is Some <==> self@.accepts(key@),
            match found {
                Some(info) => {
                    let at = first_admitting(self@.entries, key@, self@.entries.len() as int);
                    at is Some && info@ == info_of(self@.entries[at->0])
                },
                None => first_admitting(self@.entries, key@, self@.entries.len() as int)
                    is None,
            },
    {
        let mut found: Option<ApiKeyInfo> = None;
        let mut i: usize = 0;
        while i < self.entries.len()
            invariant
                i <= self.entries.len(),
                match found {
                    Some(info) => {
                        let at = first_admitting(self@.entries, key@, i as int);
                        at is Some && info@ == info_of(self@.entries[at->0])
                    },
                    None => first_admitting(self@.entries, key@, i as int) is None,
                },
            decreases self.entries.len() - i,
        {
            let entry = &self.entries[i];
            let same = constant_time_eq(key, entry.key.as_str());
            proof {
                assert(self@.entries[i as int] == entry@);
            }
            if found.is_none() && !entry.disabled && same {
                found = Some(
                    ApiKeyInfo {
                        id: entry.id,
                        label: entry.label.clone(),
                        read_only: entry.read_only,
                        allowed_models: copy_whitelist(&entry.allowed_models),
                        bound_credential_ids: copy_bindings(&entry.bound_credential_ids),
                    },
                );
            }
            i = i + 1;
        }
        proof {
            lemma_first_admitting(self@.entries, key@, self@.entries.len() as int);
        }
        found
    }

    /// Whether the store holds no key at all.
    pub fn is_empty(&self) -> (empty: bool)
        ensures
            empty == (self@.entries.len() == 0),
    {
        self.entries.len() == 0
    }

    /// The display form of an entry.
    pub fn to_view(&self, entry: &ApiKeyEntry) -> (shown: ApiKeyEntryView)
        ensures
            shown@ == display_of(entry@),
    {
        ApiKeyEntryView {
            id: entry.id,
            key: mask_key(entry.key.as_str()),
            full_key: entry.key.clone(),
            key_length: entry.key.as_str().as_bytes().len(),
            label: entry.label.clone(),
            read_only: entry.read_only,
            allowed_models: copy_whitelist(&entry.allowed_models),
            disabled: entry.disabled,
            created_at: entry.created_at.clone(),
        }
    }

    /// Every entry in display form, in store order.
    pub fn list(&self) -> (shown: Vec<ApiKeyEntryView>)
        ensures
            shown@.map_values(|v: ApiKeyEntryView| v@) == self@.entries.map_values(
                |e: EntryModel| display_of(e),
            ),
    {
        let mut shown: Vec<ApiKeyEntryView> = Vec::new();
        let mut i: usize = 0;
        while i < self.entries.len()
            invariant
                i <= self.entries.len(),
                shown@.len() == i,
                forall|j: int| 0 <= j < i ==> shown@[j]@ == display_of(self.entries@[j]@),
            decreases self.entries.len() - i,
        {
            let v = self.to_view(&self.entries[i]);
            shown.push(v);
            i = i + 1;
        }
        proof {
            assert(shown@.map_values(|v: ApiKeyEntryView| v@) =~= self@.entries.map_values(
                |e: EntryModel| display_of(e),
            ));
        }
        shown
    }

    /// The index of the first entry with the given id.
    fn locate(&self, id: u64) -> (at: Option<usize>)
        ensures
            match at {
                Some(i) => position_of(self@.entries, id) == Some(i as int) && i
                    < self.entries@.len(),
                None => position_of(self@.entries, id) is None,
            },
    {
        let mut i: usize = 0;
        while i < self.entries.len()
            invariant
                i <= self.entries.len(),
                first_with_id(self@.entries, id, i as int) is None,
            decreases self.entries.len() - i,
        {
            proof {
                assert(self@.entries[i as int] == self.entries@[i as int]@);
            }
            if self.entries[i].id == id {
                proof {
                    lemma_first_with_id(self@.entries, id, i + 1);
                    lemma_first_with_id(self@.entries, id, self@.entries.len() as int);
                }
                return Some(i);
            }
            i = i + 1;
        }
        None
    }

    /// The display form of the entry with the given id.
    pub fn get(&self, id: u64) -> (shown: Option<ApiKeyEntryView>)
        ensures
            match shown {
                Some(v) => {
                    let at = position_of(self@.entries, id);
                    at is Some && v@ == display_of(self@.entries[at->0])
                },
                None => position_of(self@.entries, id) is None,
            },
    {
        match self.locate(id) {
            Some(i) => {
                proof {
                    assert(self@.entries[i as int] == self.entries@[i as int]@);
                }
                Some(self.to_view(&self.entries[i]))
            },
            None => None,
        }
    }

    /// Adds a key created at the given time and returns its id.
    pub fn add_at(
        &mut self,
        key: String,
        label: String,
        read_only: bool,
        allowed_models: Option<Vec<String>>,
        created_at: String,
    ) -> (id: u64)
        requires
            old(self)@.next_id < u64::MAX,
        ensures
            id == old(self)@.next_id,
            final(self)@ == (StoreModel {
                next_id: (id + 1) as u64,
                entries: old(self)@.entries.push(
                    fresh_entry(
                        id,
                        key@,
                        label@,
                        read_only,
                        whitelist_of(allowed_models),
                        created_at@,
                    ),
                ),
            }),
            old(self)@.wf() ==> final(self)@.wf(),
    {
        let id = self.next_id;
        self.next_id = self.next_id + 1;
        let entry = ApiKeyEntry {
            id,
            key,
            label,
            read_only,
            allowed_models,
            bound_credential_ids: None,
            disabled: false,
            created_at,
        };
        let ghost model = entry@;
        let ghost before = entry_models(self.entries@);
        self.entries.push(entry);
        proof {
            assert(entry_models(self.entries@) == before.push(model));
        }
        id
    }

    /// Adds a key created now and returns its id.
    pub fn add(
        &mut self,
        key: String,
        label: String,
        read_only: bool,
        allowed_models: Option<Vec<String>>,
    ) -> (id: u64)
        requires
            old(self)@.next_id < u64::MAX,
        ensures
            id == old(self)@.next_id,
            old(self)@.wf() ==> final(self)@.wf(),
            exists|created_at: Seq<char>|
                final(self)@ == (StoreModel {
                    next_id: (id + 1) as u64,
                    entries: old(self)@.entries.push(
                        fresh_entry(
                            id,
                            key@,
                            label@,
                            read_only,
                            whitelist_of(allowed_models),
                            created_at,
                        ),
                    ),
                }),
    {
        let created_at = now_rfc3339();
        let ghost stamp = created_at@;
        let ghost wanted = StoreModel {
            next_id: (self@.next_id + 1) as u64,
            entries: self@.entries.push(
                fresh_entry(
                    self@.next_id,
                    key@,
                    label@,
                    read_only,
                    whitelist_of(allowed_models),
                    stamp,
                ),
            ),
        };
        let id = self.add_at(key, label, read_only, allowed_models, created_at);
        proof {
            assert(self@ == wanted);
        }
        id
    }

    /// Adds a key created now and returns its id, unless the ids are used up:
    /// then nothing is added.
    pub fn try_add(
        &mut self,
        key: String,
        label: String,
        read_only: bool,
        allowed_models: Option<Vec<String>>,
    ) -> (id: Option<u64>)
        ensures
            id is Some <==> old(self)@.next_id < u64::MAX,
            id is None ==> final(self)@ == old(self)@,
            id is Some ==> id == Some(old(self)@.next_id) && exists|created_at: Seq<char>|
                final(self)@ == (StoreModel {
                    next_id: (old(self)@.next_id + 1) as u64,
                    entries: old(self)@.entries.push(
                        fresh_entry(
                            old(self)@.next_id,
                            key@,
                            label@,
                            read_only,
                            whitelist_of(allowed_models),
                            created_at,
                        ),
                    ),
                }),
            old(self)@.wf() ==> final(self)@.wf(),
    {
        if self.next_id < u64::MAX {
            Some(self.add(key, label, read_only, allowed_models))
        } else {
            None
        }
    }

    /// Changes the fields of the entry with the given id that the arguments
    /// name; fails, leaving the store as it is, when no entry has the id.
    pub fn update(
        &mut self,
        id: u64,
        key: Option<String>,
        label: Option<String>,
        read_only: Option<bool>,
        allowed_models: Option<Option<Vec<String>>>,
        disabled: Option<bool>,
        bound_credential_ids: Option<Option<Vec<u64>>>,
    ) -> (done: Result<(), String>)
        ensures
            match done {
                Ok(_) => {
                    let at = position_of(old(self)@.entries, id);
                    &&& at is Some
                    &&& final(self)@ == (StoreModel {
                        next_id: old(self)@.next_id,
                        entries: old(self)@.entries.update(
                            at->0,
                            changed(
                                old(self)@.entries[at->0],
                                change_of(
                                    key,
                                    label,
                                    read_only,
                                    allowed_models,
                                    disabled,
                                    bound_credential_ids,
                                ),
                            ),
                        ),
                    })
                },
                Err(msg) => {
                    &&& position_of(old(self)@.entries, id) is None
                    &&& final(self)@ == old(self)@
                    &&& msg@ == missing_text(id)
                },
            },
            old(self)@.wf() ==> final(self)@.wf(),
    {
        let at = match self.locate(id) {
            Some(i) => i,
            None => {
                return Err(missing_message(id));
            },
        };
        let ghost before = self@.entries;
        let ghost change = change_of(
            key,
            label,
            read_only,
            allowed_models,
            disabled,
            bound_credential_ids,
        );
        let mut entry = self.entries.remove(at);
        proof {
            assert(entry@ == before[at as int]);
        }
        match key {
            Some(k) => {
                let t = trimmed(k.as_str());
                if t.as_str().unicode_len() != 0 {
                    entry.key = t;
                }
            },
            None => {},
        }
        match label {
            Some(l) => {
                entry.label = l;
            },
            None => {},
        }
        match read_only {
            Some(r) => {
                entry.read_only = r;
            },
            None => {},
        }
        match allowed_models {
            Some(m) => {
                entry.allowed_models = m;
            },
            None => {},
        }
        match disabled {
            Some(d) => {
                entry.disabled = d;
            },
            None => {},
        }
        match bound_credential_ids {
            Some(b) => {
                entry.bound_credential_ids = b;
            },
            None => {},
        }
        let ghost after = entry@;
        proof {
            assert(after == changed(before[at as int], change));
        }
        self.entries.insert(at, entry);
        proof {
            assert(entry_models(self.entries@) =~= before.update(at as int, after));
            lemma_first_with_id(before, id, before.len() as int);
        }
        Ok(())
    }

    /// Removes every entry with the given id; fails, leaving the store as it
    /// is, when there is none.
    pub fn delete(&mut self, id: u64) -> (done: Result<(), String>)
        ensures
            match done {
                Ok(_) => {
                    &&& position_of(old(self)@.entries, id) is Some
                    &&& final(self)@ == (StoreModel {
                        next_id: old(self)@.next_id,
                        entries: without_id(old(self)@.entries, id),
                    })
                },
                Err(msg) => {
                    &&& position_of(old(self)@.entries, id) is None
                    &&& final(self)@ == old(self)@
                    &&& msg@ == missing_text(id)
                },
            },
            old(self)@.wf() ==> final(self)@.wf(),
    {
        if self.locate(id).is_none() {
            return Err(missing_message(id));
        }
        let ghost before = self@.entries;
        let mut kept: Vec<ApiKeyEntry> = Vec::new();
        let mut rest: Vec<ApiKeyEntry> = Vec::new();
        std::mem::swap(&mut self.entries, &mut rest);
        proof {
            assert(entry_models(kept@) == Seq::<EntryModel>::empty());
            assert(before.take(0) == Seq::<EntryModel>::empty());
            assert(without_id(before.take(0), id) == Seq::<EntryModel>::empty());
        }
        for e in it: rest
            invariant
                entry_models(it.seq()) == before,
                entry_models(kept@) == without_id(before.take(it.index() as int), id),
        {
            let ghost k = it.index() as int;
            let ghost model = e@;
            let ghost kept_before = entry_models(kept@);
            proof {
                assert(before[k] == model);
                assert(before.take(k + 1) == before.take(k).push(model));
                lemma_filter_push(before.take(k), model, id);
            }
            if e.id != id {
                kept.push(e);
                proof {
                    assert(entry_models(kept@) == kept_before.push(model));
                }
            }
        }
        proof {
            assert(before.take(before.len() as int) == before);
        }
        self.entries = kept;
        proof {
            lemma_without_id_wf(before, id, self.next_id);
        }
        Ok(())
    }
}

/// Filtering by id goes through a sequence one element at a time.
pub proof fn lemma_filter_push(s: Seq<EntryModel>, e: EntryModel, id: u64)
    ensures
        without_id(s.push(e), id) == if e.id != id {
            without_id(s, id).push(e)
        } else {
            without_id(s, id)
        },
{
    reveal(Seq::filter);
    assert(s.push(e).drop_last() == s);
}

/// Removing an id keeps a well-formed store well-formed.
pub proof fn lemma_without_id_wf(entries: Seq<EntryModel>, id: u64, next_id: u64)
    ensures
        (StoreModel { next_id, entries }).wf() ==> (StoreModel {
            next_id,
            entries: without_id(entries, id),
        }).wf(),
    decreases entries.len(),
{
    let kept = without_id(entries, id);
    if (StoreModel { next_id, entries }).wf() {
        if entries.len() > 0 {
            let front = entries.drop_last();
            let last = entries.last();
            assert(entries == front.push(last));
            lemma_filter_push(front, last, id);
            assert((StoreModel { next_id, entries: front }).wf());
            lemma_without_id_wf(front, id, next_id);
            lemma_kept_come_from(front, id);
            let kf = without_id(front, id);
            assert forall|i: int, j: int| 0 <= i < j < kept.len() implies kept[i].id
                != kept[j].id by {
                if j == kf.len() {
                    let src = choose|k: int| 0 <= k < front.len() && front[k] == kf[i];
                    assert(entries[src] == kf[i]);
                    assert(entries[entries.len() - 1] == last);
                }
            }
        } else {
            reveal(Seq::filter);
        }
    }
}

/// Every entry that survives the removal of an id was there before.
pub proof fn lemma_kept_come_from(entries: Seq<EntryModel>, id: u64)
    ensures
        forall|i: int|
            0 <= i < without_id(entries, id).len() ==> exists|k: int|
                0 <= k < entries.len() && entries[k] == #[trigger] without_id(entries, id)[i],
    decreases entries.len(),
{
    if entries.len() > 0 {
        let front = entries.drop_last();
        let last = entries.last();
        assert(entries == front.push(last));
        lemma_filter_push(front, last, id);
        lemma_kept_come_from(front, id);
        let kept = without_id(entries, id);
        let kf = without_id(front, id);
        assert forall|i: int| 0 <= i < kept.len() implies exists|k: int|
            0 <= k < entries.len() && entries[k] == #[trigger] kept[i] by {
            if i < kf.len() {
                let k = choose|k: int| 0 <= k < front.len() && front[k] == kf[i];
                assert(entries[k] == kept[i]);
            } else {
                assert(entries[entries.len() - 1] == kept[i]);
            }
        }
    } else {
        reveal(Seq::filter);
    }
}

/// The message for an id that the store does not hold.
pub fn missing_message(id: u64) -> (msg: String)
    ensures
        msg@ == missing_text(id),
{
    let mut msg = crate::text::owned("API Key #");
    let n = decimal_string(id);
    msg.append(n.as_str());
    msg.append(" 不存在");
    msg
}

} // verus!
