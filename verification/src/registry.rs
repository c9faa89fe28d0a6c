use crate::call::{CallInfo, CallInfoModel, MethodInfo, MethodInfoModel};
use crate::error::{ErrorBag, Web3ProxyError};
use crate::json::json_print;
use crate::model::views;
use std::collections::VecDeque;
use vstd::prelude::*;

verus! {

/// Mathematical model of the telemetry kept for one key.
pub struct KeyDataModel {
    pub key: Seq<char>,
    pub total_calls: nat,
    pub total_requests: nat,
    /// The recorded calls, oldest first.
    pub calls: Seq<CallInfoModel>,
}

/// The telemetry kept for one key.
#[derive(Debug, PartialEq, Eq)]
pub struct KeyData {
    /// The key; never changes.
    pub key: String,
    /// Completed round trips, successful or not.
    pub total_calls: u64,
    /// Requests seen, counted before they are forwarded.
    pub total_requests: u64,
    /// The most recent calls, oldest first.
    pub calls: VecDeque<CallInfo>,
}

impl View for KeyData {
    type V = KeyDataModel;

    open spec fn view(&self) -> KeyDataModel {
        KeyDataModel {
            key: self.key@,
            total_calls: self.total_calls as nat,
            total_requests: self.total_requests as nat,
            calls: views(self.calls@),
        }
    }
}

/// A counter one step on; it stays at the largest `u64` once there.
pub open spec fn count_up(n: nat) -> nat {
    if n < u64::MAX {
        n + 1
    } else {
        n
    }
}

/// The last `room` of the items, in their order; all of them where there
/// are no more than `room`.
pub open spec fn newest<T>(items: Seq<T>, room: nat) -> Seq<T> {
    if items.len() <= room {
        items
    } else {
        items.subrange(items.len() - room, items.len() as int)
    }
}

/// How many items a listing with the given limit shows of `len`: all of
/// them without a limit, and never more than there are.
pub open spec fn shown(len: nat, limit: Option<nat>) -> nat {
    match limit {
        Some(l) => if l < len {
            l
        } else {
            len
        },
        None => len,
    }
}

/// The last items, newest first, as far as the limit goes.
pub open spec fn newest_first<T>(items: Seq<T>, limit: Option<nat>) -> Seq<T> {
    Seq::new(shown(items.len(), limit), |i: int| items[items.len() - 1 - i])
}

/// The entries that one recorded call gives to the method listing: one for
/// each parsed call, in parse order, with the record's start and duration.
pub open spec fn entries_of(call: CallInfoModel) -> Seq<MethodInfoModel> {
    Seq::new(
        call.parsed_request.len(),
        |i: int|
            MethodInfoModel {
                id: json_print(call.parsed_request[i].id),
                method: call.parsed_request[i].method,
                date: call.date,
                response_time: call.response_time,
            },
    )
}

/// The entries of a run of recorded calls, call after call.
pub open spec fn methods_of(calls: Seq<CallInfoModel>) -> Seq<MethodInfoModel>
    decreases calls.len(),
{
    if calls.len() == 0 {
        Seq::empty()
    } else {
        methods_of(calls.drop_last()) + entries_of(calls.last())
    }
}

/// Mathematical model of the registry: the history capacity it was made
/// with and the record of each key seen so far.
#[verifier::ext_equal]
pub struct RegistryModel {
    pub queue_size: nat,
    pub records: Map<Seq<char>, KeyDataModel>,
}

impl RegistryModel {
    /// The registry before any request.
    pub open spec fn empty(queue_size: nat) -> RegistryModel {
        RegistryModel { queue_size, records: Map::empty() }
    }

    /// The record a key starts with.
    pub open spec fn fresh(key: Seq<char>) -> KeyDataModel {
        KeyDataModel { key, total_calls: 0, total_requests: 0, calls: Seq::empty() }
    }

    /// The registry with a record for the key: unchanged where it has one.
    pub open spec fn ensure(self, key: Seq<char>) -> RegistryModel {
        if self.records.contains_key(key) {
            self
        } else {
            RegistryModel {
                queue_size: self.queue_size,
                records: self.records.insert(key, Self::fresh(key)),
            }
        }
    }

    /// The registry after a request for the key was seen.
    pub open spec fn record_request_seen(self, key: Seq<char>) -> RegistryModel {
        let record = self.ensure(key).records[key];
        RegistryModel {
            queue_size: self.queue_size,
            records: self.records.insert(
                key,
                KeyDataModel {
                    key: record.key,
                    total_calls: record.total_calls,
                    total_requests: count_up(record.total_requests),
                    calls: record.calls,
                },
            ),
        }
    }

    /// The registry after a call for the key was completed: unchanged where
    /// the key has no record.
    pub open spec fn append_call(self, key: Seq<char>, call: CallInfoModel) -> RegistryModel {
        if self.records.contains_key(key) {
            let record = self.records[key];
            RegistryModel {
                queue_size: self.queue_size,
                records: self.records.insert(
                    key,
                    KeyDataModel {
                        key: record.key,
                        total_calls: count_up(record.total_calls),
                        total_requests: record.total_requests,
                        calls: newest(record.calls.push(call), self.queue_size),
                    },
                ),
            }
        } else {
            self
        }
    }

    /// The key's most recent calls, newest first; `None` for an unknown key.
    pub open spec fn recent_calls(self, key: Seq<char>, limit: Option<nat>) -> Option<
        Seq<CallInfoModel>,
    > {
        if self.records.contains_key(key) {
            Some(newest_first(self.records[key].calls, limit))
        } else {
            None
        }
    }

    /// The method listing of the key's most recent calls; `None` for an
    /// unknown key.
    pub open spec fn recent_methods(self, key: Seq<char>, limit: Option<nat>) -> Option<
        Seq<MethodInfoModel>,
    > {
        match self.recent_calls(key, limit) {
            Some(calls) => Some(methods_of(calls)),
            None => None,
        }
    }

    /// Every record sits under its own key and holds no more calls than the
    /// registry's capacity.
    pub open spec fn well_formed(self) -> bool {
        &&& self.records.dom().finite()
        &&& forall|key: Seq<char>| #[trigger]
            self.records.contains_key(key) ==> self.records[key].key == key
                && self.records[key].calls.len() <= self.queue_size
    }
}

/// The limit of a listing as a number.
pub open spec fn limit_of(limit: Option<usize>) -> Option<nat> {
    match limit {
        Some(l) => Some(l as nat),
        None => None,
    }
}

/// No two records bear the same key.
spec fn distinct_keys(keys: Seq<KeyData>) -> bool {
    forall|i: int, j: int|
        0 <= i < keys.len() && 0 <= j < keys.len() && i != j ==> (#[trigger] keys[i]).key@ != (
        #[trigger] keys[j]).key@
}

/// No record holds more calls than `room`.
spec fn bounded(keys: Seq<KeyData>, room: nat) -> bool {
    forall|i: int| 0 <= i < keys.len() ==> (#[trigger] keys[i]).calls@.len() <= room
}

/// Whether one of the records bears the key.
spec fn holds(keys: Seq<KeyData>, key: Seq<char>) -> bool {
    exists|i: int| 0 <= i < keys.len() && (#[trigger] keys[i]).key@ == key
}

/// The place of a record that bears the key.
spec fn slot(keys: Seq<KeyData>, key: Seq<char>) -> int {
    choose|i: int| 0 <= i < keys.len() && (#[trigger] keys[i]).key@ == key
}

/// The records as a map from key to record.
spec fn records_of(keys: Seq<KeyData>) -> Map<Seq<char>, KeyDataModel> {
    Map::new(|key: Seq<char>| holds(keys, key), |key: Seq<char>| keys[slot(keys, key)]@)
}

/// With distinct keys, each record is found under its own key.
proof fn lemma_record_at(keys: Seq<KeyData>, i: int)
    requires
        distinct_keys(keys),
        0 <= i < keys.len(),
    ensures
        holds(keys, keys[i].key@),
        slot(keys, keys[i].key@) == i,
        records_of(keys).contains_key(keys[i].key@),
        records_of(keys)[keys[i].key@] == keys[i]@,
{
}

/// The keys of the records are finitely many.
proof fn lemma_records_finite(keys: Seq<KeyData>)
    ensures
        records_of(keys).dom().finite(),
    decreases keys.len(),
{
    if keys.len() == 0 {
        assert(records_of(keys).dom() =~= Set::empty());
    } else {
        let front = keys.drop_last();
        lemma_records_finite(front);
        assert forall|key: Seq<char>| holds(keys, key) <==> (holds(front, key) || key
            == keys.last().key@) by {
            if holds(keys, key) {
                let i = slot(keys, key);
                if i < front.len() {
                    assert(front[i].key@ == key);
                }
            }
            if holds(front, key) {
                assert(keys[slot(front, key)].key@ == key);
            }
        }
        assert(records_of(keys).dom() =~= records_of(front).dom().insert(keys.last().key@));
    }
}

/// Appending a record with a new key inserts it into the map.
proof fn lemma_records_push(keys: Seq<KeyData>, record: KeyData)
    requires
        distinct_keys(keys),
        !holds(keys, record.key@),
    ensures
        distinct_keys(keys.push(record)),
        records_of(keys.push(record)) == records_of(keys).insert(record.key@, record@),
{
    let after = keys.push(record);
    assert(distinct_keys(after)) by {
        assert forall|i: int| 0 <= i < keys.len() implies (#[trigger] after[i]).key@
            != record.key@ by {
            assert(keys[i].key@ == after[i].key@);
        }
    }
    assert forall|key: Seq<char>| holds(after, key) <==> (holds(keys, key) || key
        == record.key@) by {
        if holds(keys, key) {
            assert(after[slot(keys, key)].key@ == key);
        }
        if key == record.key@ {
            assert(after[keys.len() as int].key@ == key);
        }
    }
    assert forall|key: Seq<char>| holds(after, key) implies records_of(after)[key]
        == records_of(keys).insert(record.key@, record@)[key] by {
        lemma_record_at(after, slot(after, key));
        if key != record.key@ {
            assert(after[slot(keys, key)].key@ == key);
        }
    }
}

/// Replacing a record by one with the same key replaces it in the map.
proof fn lemma_records_update(keys: Seq<KeyData>, i: int, record: KeyData)
    requires
        distinct_keys(keys),
        0 <= i < keys.len(),
        record.key@ == keys[i].key@,
    ensures
        distinct_keys(keys.update(i, record)),
        records_of(keys.update(i, record)) == records_of(keys).insert(record.key@, record@),
{
    let after = keys.update(i, record);
    assert forall|j: int| 0 <= j < keys.len() implies (#[trigger] after[j]).key@
        == keys[j].key@ by {}
    assert forall|key: Seq<char>| holds(after, key) <==> holds(keys, key) by {
        if holds(after, key) {
            assert(keys[slot(after, key)].key@ == key);
        }
        if holds(keys, key) {
            assert(after[slot(keys, key)].key@ == key);
        }
    }
    assert forall|key: Seq<char>| holds(after, key) implies records_of(after)[key]
        == records_of(keys).insert(record.key@, record@)[key] by {
        lemma_record_at(after, slot(after, key));
        lemma_record_at(keys, slot(keys, key));
    }
}

/// The registry: the record of every key seen so far, and the capacity
/// that bounds each record's history. No two records bear the same key, and
/// no history is longer than the capacity.
#[derive(Debug)]
pub struct SharedData {
    keys: Vec<KeyData>,
    queue_size: usize,
}

impl View for SharedData {
    type V = RegistryModel;

    closed spec fn view(&self) -> RegistryModel {
        RegistryModel { queue_size: self.queue_size as nat, records: records_of(self.keys@) }
    }
}

/// The place of the record that bears the key, if one does.
fn find(keys: &Vec<KeyData>, key: &str) -> (r: Option<usize>)
    ensures
        match r {
            Some(i) => i < keys@.len() && keys@[i as int].key@ == key@,
            None => !holds(keys@, key@),
        },
{
    let wanted = key.to_owned();
    let mut i: usize = 0;
    while i < keys.len()
        invariant
            i <= keys.len(),
            wanted@ == key@,
            forall|j: int| 0 <= j < i ==> (#[trigger] keys@[j]).key@ != key@,
        decreases keys.len() - i,
    {
        if keys[i].key == wanted {
            return Some(i);
        }
        i += 1;
    }
    None
}

/// The place of the record that bears the key; a record with zeroed
/// counters and an empty history is appended first where none bears it.
fn place(keys: &mut Vec<KeyData>, key: &str) -> (i: usize)
    requires
        distinct_keys(old(keys)@),
    ensures
        distinct_keys(final(keys)@),
        i < final(keys)@.len(),
        final(keys)@[i as int].key@ == key@,
        records_of(final(keys)@) == if records_of(old(keys)@).contains_key(key@) {
            records_of(old(keys)@)
        } else {
            records_of(old(keys)@).insert(key@, RegistryModel::fresh(key@))
        },
        forall|room: nat| bounded(old(keys)@, room) ==> bounded(final(keys)@, room),
{
    match find(keys, key) {
        Some(i) => i,
        None => {
            let record = KeyData {
                key: key.to_owned(),
                total_calls: 0,
                total_requests: 0,
                calls: VecDeque::new(),
            };
            proof {
                lemma_records_push(keys@, record);
                assert(record@.calls =~= Seq::empty());
            }
            keys.push(record);
            keys.len() - 1
        },
    }
}

/// Copies the last calls of a history, newest first, as far as the limit
/// goes.
pub fn newest_calls(history: &VecDeque<CallInfo>, limit: Option<usize>) -> (r: Vec<CallInfo>)
    ensures
        views(r@) == newest_first(views(history@), limit_of(limit)),
{
    let len = history.len();
    let count = match limit {
        Some(l) => if l < len {
            l
        } else {
            len
        },
        None => len,
    };
    let mut calls: Vec<CallInfo> = Vec::new();
    let mut k: usize = 0;
    while k < count
        invariant
            k <= count <= len,
            len == history@.len(),
            calls@.len() == k,
            forall|j: int| 0 <= j < k ==> (#[trigger] calls@[j])@ == history@[len - 1 - j]@,
        decreases count - k,
    {
        calls.push(history[len - 1 - k].clone());
        k += 1;
    }
    calls
}

/// Lists the calls parsed from each of the given records, record after
/// record.
pub fn method_entries(calls: &Vec<CallInfo>) -> (r: Vec<MethodInfo>)
    ensures
        views(r@) == methods_of(views(calls@)),
{
    let mut methods: Vec<MethodInfo> = Vec::new();
    let mut k: usize = 0;
    while k < calls.len()
        invariant
            k <= calls.len(),
            views(methods@) == methods_of(views(calls@).take(k as int)),
        decreases calls.len() - k,
    {
        let call = &calls[k];
        let ghost done = views(methods@);
        let ghost entries = entries_of(call@);
        let mut j: usize = 0;
        while j < call.parsed_request.len()
            invariant
                j <= call.parsed_request.len(),
                entries == entries_of(call@),
                views(methods@) == done + entries.take(j as int),
            decreases call.parsed_request.len() - j,
        {
            let request = &call.parsed_request[j];
            let entry = MethodInfo {
                id: request.id.to_text(),
                method: request.method.clone(),
                date: call.date,
                response_time: call.response_time,
            };
            proof {
                assert(views(methods@.push(entry)) =~= views(methods@).push(entry@));
            }
            methods.push(entry);
            j += 1;
        }
        proof {
            let shown = views(calls@);
            assert(shown.take(k + 1).drop_last() =~= shown.take(k as int));
        }
        k += 1;
    }
    assert(views(calls@).take(k as int) =~= views(calls@));
    methods
}

impl SharedData {
    #[verifier::type_invariant]
    spec fn inv(self) -> bool {
        distinct_keys(self.keys@) && bounded(self.keys@, self.queue_size as nat)
    }

    /// An empty registry whose histories hold up to `queue_size` calls.
    pub fn new(queue_size: usize) -> (r: SharedData)
        ensures
            r@ == RegistryModel::empty(queue_size as nat),
            r@.well_formed(),
    {
        let r = SharedData { keys: Vec::new(), queue_size };
        r
    }

    /// The capacity of each record's history.
    pub fn queue_size(&self) -> (r: usize)
        ensures
            r == self@.queue_size,
    {
        self.queue_size
    }

    /// The record of a key, if the key was seen.
    pub fn get(&self, key: &str) -> (r: Option<&KeyData>)
        ensures
            self@.well_formed(),
            match r {
                Some(record) => self@.records.contains_key(key@) && record@
                    == self@.records[key@],
                None => !self@.records.contains_key(key@),
            },
    {
        proof {
            use_type_invariant(self);
            self.lemma_well_formed();
        }
        match find(&self.keys, key) {
            Some(i) => {
                proof {
                    lemma_record_at(self.keys@, i as int);
                }
                Some(&self.keys[i])
            },
            None => None,
        }
    }

    /// The record of the key; a record with zeroed counters and an empty
    /// history is made first where the key has none.
    pub fn ensure(&mut self, key: &str) -> (r: &KeyData)
        ensures
            final(self)@ == old(self)@.ensure(key@),
            final(self)@.well_formed(),
            r@ == final(self)@.records[key@],
    {
        proof {
            use_type_invariant(&*self);
        }
        let mut keys: Vec<KeyData> = Vec::new();
        std::mem::swap(&mut keys, &mut self.keys);
        let i = place(&mut keys, key);
        self.keys = keys;
        proof {
            self.lemma_well_formed();
            lemma_record_at(self.keys@, i as int);
        }
        &self.keys[i]
    }

    /// Counts a request for the key, before it is forwarded. A key seen for
    /// the first time gets its record here.
    pub fn record_request_seen(&mut self, key: &str)
        ensures
            final(self)@ == old(self)@.record_request_seen(key@),
            final(self)@.well_formed(),
    {
        proof {
            use_type_invariant(&*self);
        }
        let mut keys: Vec<KeyData> = Vec::new();
        std::mem::swap(&mut keys, &mut self.keys);
        let i = place(&mut keys, key);
        let ghost placed = keys@;
        proof {
            lemma_record_at(placed, i as int);
        }
        let record = &mut keys[i];
        if record.total_requests < u64::MAX {
            record.total_requests = record.total_requests + 1;
        }
        proof {
            lemma_records_update(placed, i as int, keys@[i as int]);
        }
        self.keys = keys;
        proof {
            self.lemma_well_formed();
        }
    }

    /// Records a completed call for the key: counts it, appends it to the
    /// history, and drops the oldest entries beyond the capacity. Fails,
    /// and changes nothing, where the key has no record.
    pub fn append_call(&mut self, key: &str, record: CallInfo) -> (r: Result<(), Web3ProxyError>)
        ensures
            final(self)@ == old(self)@.append_call(key@, record@),
            final(self)@.well_formed(),
            r is Ok <==> old(self)@.records.contains_key(key@),
            r matches Err(e) ==> e.inner == ErrorBag::NotFoundError,
    {
        proof {
            use_type_invariant(&*self);
            self.lemma_well_formed();
        }
        let queue_size = self.queue_size;
        let mut keys: Vec<KeyData> = Vec::new();
        std::mem::swap(&mut keys, &mut self.keys);
        let ghost before = keys@;
        let found = find(&keys, key);
        let r = match found {
            Some(i) => {
                proof {
                    lemma_record_at(before, i as int);
                }
                let ghost grown = before[i as int].calls@.push(record);
                let entry = &mut keys[i];
                if entry.total_calls < u64::MAX {
                    entry.total_calls = entry.total_calls + 1;
                }
                entry.calls.push_back(record);
                let ghost counted = *entry;
                while entry.calls.len() > queue_size
                    invariant
                        entry.key == counted.key,
                        entry.total_calls == counted.total_calls,
                        entry.total_requests == counted.total_requests,
                        entry.calls@.len() <= grown.len(),
                        entry.calls@.len() == grown.len() || entry.calls@.len() >= queue_size,
                        entry.calls@ == grown.subrange(
                            grown.len() - entry.calls@.len(),
                            grown.len() as int,
                        ),
                    decreases entry.calls@.len(),
                {
                    entry.calls.pop_front();
                }
                proof {
                    assert(entry.calls@ =~= newest(grown, queue_size as nat));
                    assert(views(grown) =~= views(before[i as int].calls@).push(record@));
                    assert(views(newest(grown, queue_size as nat)) =~= newest(
                        views(grown),
                        queue_size as nat,
                    ));
                    lemma_records_update(before, i as int, keys@[i as int]);
                }
                Ok(())
            },
            None => Err(Web3ProxyError::new(ErrorBag::NotFoundError)),
        };
        self.keys = keys;
        proof {
            self.lemma_well_formed();
        }
        r
    }

    /// The key's most recent calls, newest first: all of them without a
    /// limit, else as many as the limit allows. Fails for a key that has no
    /// record.
    pub fn recent_calls(&self, key: &str, limit: Option<usize>) -> (r: Result<
        Vec<CallInfo>,
        Web3ProxyError,
    >)
        ensures
            self@.well_formed(),
            match r {
                Ok(calls) => self@.recent_calls(key@, limit_of(limit)) == Some(views(calls@)),
                Err(e) => self@.recent_calls(key@, limit_of(limit)) is None && e.inner
                    == ErrorBag::NotFoundError,
            },
    {
        proof {
            use_type_invariant(self);
            self.lemma_well_formed();
        }
        let i = match find(&self.keys, key) {
            Some(i) => i,
            None => {
                return Err(Web3ProxyError::new(ErrorBag::NotFoundError));
            },
        };
        proof {
            lemma_record_at(self.keys@, i as int);
        }
        let history = &self.keys[i].calls;
        Ok(newest_calls(history, limit))
    }

    /// The method listing of the key's most recent calls: for each call,
    /// newest first, one entry for each call parsed from its request, in
    /// parse order. Fails for a key that has no record.
    pub fn recent_methods(&self, key: &str, limit: Option<usize>) -> (r: Result<
        Vec<MethodInfo>,
        Web3ProxyError,
    >)
        ensures
            self@.well_formed(),
            match r {
                Ok(methods) => self@.recent_methods(key@, limit_of(limit)) == Some(
                    views(methods@),
                ),
                Err(e) => self@.recent_methods(key@, limit_of(limit)) is None && e.inner
                    == ErrorBag::NotFoundError,
            },
    {
        let calls = match self.recent_calls(key, limit) {
            Ok(calls) => calls,
            Err(e) => {
                return Err(e);
            },
        };
        Ok(method_entries(&calls))
    }

    /// A registry that meets its invariant has a well-formed model.
    proof fn lemma_well_formed(self)
        requires
            self.inv(),
        ensures
            self@.well_formed(),
    {
        lemma_records_finite(self.keys@);
        assert forall|key: Seq<char>| #[trigger]
            self@.records.contains_key(key) implies self@.records[key].key == key
            && self@.records[key].calls.len() <= self@.queue_size by {
            let i = slot(self.keys@, key);
            lemma_record_at(self.keys@, i);
        }
    }
}

} // verus!
