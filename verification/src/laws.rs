use crate::call::{CallInfoModel, Elapsed, Timestamp};
use crate::json::json_print;
use crate::proxy::{
    begin_call_spec, call_record, decode_spec, forward_result_spec, response_spec,
    ProxyResponseModel, UpstreamReplyModel,
};
use crate::registry::{entries_of, methods_of, newest, shown, RegistryModel};
use crate::request::{parse_request_spec, ParsedRequestModel};
use vstd::prelude::*;
use vstd::utf8::{decode_utf8, valid_utf8};

verus! {

/// One change committed to the registry while it is held exclusively.
pub enum Commit {
    /// A request for the key was seen, before it is forwarded.
    Seen { key: Seq<char> },
    /// A forward attempt for the key was completed, with this record.
    Completed { key: Seq<char>, call: CallInfoModel },
}

/// The registry after one commit.
pub open spec fn apply(registry: RegistryModel, commit: Commit) -> RegistryModel {
    match commit {
        Commit::Seen { key } => registry.record_request_seen(key),
        Commit::Completed { key, call } => registry.append_call(key, call),
    }
}

/// The registry after a run of commits, starting empty.
pub open spec fn replay(queue_size: nat, commits: Seq<Commit>) -> RegistryModel
    decreases commits.len(),
{
    if commits.len() == 0 {
        RegistryModel::empty(queue_size)
    } else {
        apply(replay(queue_size, commits.drop_last()), commits.last())
    }
}

/// How many requests for the key the commits have seen.
pub open spec fn seen_count(commits: Seq<Commit>, key: Seq<char>) -> nat
    decreases commits.len(),
{
    if commits.len() == 0 {
        0
    } else {
        let before = seen_count(commits.drop_last(), key);
        if commits.last() == (Commit::Seen { key }) {
            before + 1
        } else {
            before
        }
    }
}

/// The calls that the commits have completed for the key, in commit order.
/// A completion counts once a request for the key has been seen: before
/// that the key has no record and the completion is refused.
pub open spec fn completed_calls(commits: Seq<Commit>, key: Seq<char>) -> Seq<CallInfoModel>
    decreases commits.len(),
{
    if commits.len() == 0 {
        Seq::empty()
    } else {
        let before = completed_calls(commits.drop_last(), key);
        match commits.last() {
            Commit::Completed { key: k, call } => if k == key && seen_count(
                commits.drop_last(),
                key,
            ) > 0 {
                before.push(call)
            } else {
                before
            },
            _ => before,
        }
    }
}

/// A count as a counter shows it: it stays at the largest `u64`.
pub open spec fn capped(n: nat) -> nat {
    if n <= u64::MAX {
        n
    } else {
        u64::MAX as nat
    }
}

/// Keeping the newest, adding one and keeping the newest again keeps what
/// adding one and keeping the newest once keeps.
proof fn lemma_newest_push<T>(items: Seq<T>, item: T, room: nat)
    ensures
        newest(newest(items, room).push(item), room) == newest(items.push(item), room),
{
    assert(newest(newest(items, room).push(item), room) =~= newest(items.push(item), room));
}

/// What a run of commits leaves in the registry, key by key: a record
/// exactly for the keys that were seen, with counters that show the numbers
/// of commits, and a history that is the newest of the completed calls.
pub proof fn lemma_replay(queue_size: nat, commits: Seq<Commit>, key: Seq<char>)
    ensures
        replay(queue_size, commits).well_formed(),
        replay(queue_size, commits).queue_size == queue_size,
        replay(queue_size, commits).records.contains_key(key) <==> seen_count(commits, key) > 0,
        seen_count(commits, key) == 0 ==> completed_calls(commits, key).len() == 0,
        seen_count(commits, key) > 0 ==> {
            let record = replay(queue_size, commits).records[key];
            &&& record.key == key
            &&& record.total_requests == capped(seen_count(commits, key))
            &&& record.total_calls == capped(completed_calls(commits, key).len())
            &&& record.calls == newest(completed_calls(commits, key), queue_size)
        },
    decreases commits.len(),
{
    if commits.len() > 0 {
        let front = commits.drop_last();
        lemma_replay(queue_size, front, key);
        match commits.last() {
            Commit::Seen { key: k } => {
                lemma_replay(queue_size, front, k);
            },
            Commit::Completed { key: k, call } => {
                lemma_replay(queue_size, front, k);
                if k == key && seen_count(front, key) > 0 {
                    lemma_newest_push(completed_calls(front, key), call, queue_size);
                }
            },
        }
    }
}

/// A key's history never holds more calls than the registry's capacity,
/// whatever was committed.
pub proof fn law_history_bounded(queue_size: nat, commits: Seq<Commit>, key: Seq<char>)
    requires
        replay(queue_size, commits).records.contains_key(key),
    ensures
        replay(queue_size, commits).records[key].calls.len() <= queue_size,
{
    lemma_replay(queue_size, commits, key);
}

/// Eviction is first in, first out: the history is the end of the run of
/// completed calls, in commit order, so what is missing from it are the
/// oldest, and as few of them as the capacity demands.
pub proof fn law_fifo_eviction(queue_size: nat, commits: Seq<Commit>, key: Seq<char>)
    requires
        replay(queue_size, commits).records.contains_key(key),
    ensures
        ({
            let history = replay(queue_size, commits).records[key].calls;
            let completed = completed_calls(commits, key);
            let evicted = completed.len() - history.len();
            &&& history.len() == if completed.len() <= queue_size {
                completed.len()
            } else {
                queue_size
            }
            &&& forall|i: int| 0 <= i < history.len() ==> history[i] == completed[evicted + i]
        }),
{
    lemma_replay(queue_size, commits, key);
}

/// One completed call changes a history in one of three ways: it is added
/// while there is room; it takes the place of the oldest entry once the
/// history is full; and nothing is kept where the capacity is zero.
pub proof fn law_append_evicts_oldest(registry: RegistryModel, key: Seq<char>, call: CallInfoModel)
    requires
        registry.well_formed(),
        registry.records.contains_key(key),
    ensures
        ({
            let before = registry.records[key].calls;
            let after = registry.append_call(key, call).records[key].calls;
            if before.len() < registry.queue_size {
                after == before.push(call)
            } else if registry.queue_size > 0 {
                after == before.drop_first().push(call)
            } else {
                after == Seq::<CallInfoModel>::empty()
            }
        }),
{
    let before = registry.records[key].calls;
    let after = registry.append_call(key, call).records[key].calls;
    if before.len() < registry.queue_size {
        assert(after =~= before.push(call));
    } else if registry.queue_size > 0 {
        assert(after =~= before.drop_first().push(call));
    } else {
        assert(after =~= Seq::<CallInfoModel>::empty());
    }
}

/// The counters of a key show how many requests were seen and how many
/// calls were completed for it, up to the largest `u64`.
pub proof fn law_counters_count_commits(queue_size: nat, commits: Seq<Commit>, key: Seq<char>)
    requires
        replay(queue_size, commits).records.contains_key(key),
    ensures
        replay(queue_size, commits).records[key].total_requests == capped(
            seen_count(commits, key),
        ),
        replay(queue_size, commits).records[key].total_calls == capped(
            completed_calls(commits, key).len(),
        ),
{
    lemma_replay(queue_size, commits, key);
}

/// No commit removes a record or lowers one of its counters.
pub proof fn law_counters_never_decrease(registry: RegistryModel, commit: Commit, key: Seq<char>)
    requires
        registry.records.contains_key(key),
    ensures
        apply(registry, commit).records.contains_key(key),
        apply(registry, commit).records[key].total_requests >= registry.records[key].total_requests,
        apply(registry, commit).records[key].total_calls >= registry.records[key].total_calls,
{
}

/// The listing of a key's recent calls shows the completed calls from the
/// last one backwards, and as many as the limit and the history allow.
pub proof fn law_recent_calls_newest_first(
    queue_size: nat,
    commits: Seq<Commit>,
    key: Seq<char>,
    limit: Option<nat>,
)
    requires
        replay(queue_size, commits).records.contains_key(key),
    ensures
        ({
            let registry = replay(queue_size, commits);
            let history = registry.records[key].calls;
            let completed = completed_calls(commits, key);
            let listing = registry.recent_calls(key, limit)->0;
            &&& registry.recent_calls(key, limit) is Some
            &&& listing.len() == shown(history.len(), limit)
            &&& listing.len() <= history.len()
            &&& limit matches Some(l) ==> listing.len() <= l
            &&& forall|i: int|
                0 <= i < listing.len() ==> listing[i] == completed[completed.len() - 1 - i]
        }),
{
    lemma_replay(queue_size, commits, key);
}

/// A key that was never seen has no listing.
pub proof fn law_unknown_key_not_found(
    queue_size: nat,
    commits: Seq<Commit>,
    key: Seq<char>,
    limit: Option<nat>,
)
    requires
        seen_count(commits, key) == 0,
    ensures
        replay(queue_size, commits).recent_calls(key, limit) is None,
        replay(queue_size, commits).recent_methods(key, limit) is None,
{
    lemma_replay(queue_size, commits, key);
}

/// The method listing keeps the order of the calls: of two runs of calls
/// listed one after the other, every entry of the first run comes before
/// every entry of the second.
pub proof fn law_methods_follow_calls(first: Seq<CallInfoModel>, second: Seq<CallInfoModel>)
    ensures
        methods_of(first + second) == methods_of(first) + methods_of(second),
    decreases second.len(),
{
    if second.len() == 0 {
        assert(first + second =~= first);
    } else {
        law_methods_follow_calls(first, second.drop_last());
        assert((first + second).drop_last() =~= first + second.drop_last());
    }
}

/// Within one call the method listing keeps the parse order: the call
/// gives one entry for each parsed call, in place, with the identifier as
/// JSON text, the method's name, and the call's own start and duration.
pub proof fn law_entries_in_parse_order(call: CallInfoModel, i: int)
    requires
        0 <= i < call.parsed_request.len(),
    ensures
        entries_of(call).len() == call.parsed_request.len(),
        entries_of(call)[i].id == json_print(call.parsed_request[i].id),
        entries_of(call)[i].method == call.parsed_request[i].method,
        entries_of(call)[i].date == call.date,
        entries_of(call)[i].response_time == call.response_time,
        methods_of(seq![call]) == entries_of(call),
{
    let one = seq![call];
    assert(methods_of(one) == methods_of(one.drop_last()) + entries_of(one.last()));
}

/// Round trip: a request whose body decodes, forwarded to an upstream that
/// answers with a status and a body of UTF-8 text, is answered with that
/// status and that text, and the record appended for it, the newest of the
/// key's history, holds that text as its response. The capacity must leave
/// room for one record.
pub proof fn law_round_trip(
    registry: RegistryModel,
    key: Seq<char>,
    body: Seq<u8>,
    date: Timestamp,
    response_time: Elapsed,
    status: u16,
    upstream_body: Seq<u8>,
)
    requires
        registry.queue_size > 0,
        begin_call_spec(key, body) is Some,
        valid_utf8(upstream_body),
    ensures
        ({
            let pending = begin_call_spec(key, body)->0;
            let counted = registry.record_request_seen(key);
            let result = forward_result_spec(
                UpstreamReplyModel::Answered { status, body: upstream_body },
            );
            let record = call_record(pending, date, response_time, result);
            let after = counted.append_call(key, record);
            &&& response_spec(counted, key, result) == ProxyResponseModel {
                status,
                body: Some(decode_utf8(upstream_body)),
            }
            &&& after.records.contains_key(key)
            &&& after.records[key].calls.len() > 0
            &&& after.records[key].calls.last() == record
            &&& record.response == Some(decode_utf8(upstream_body))
            &&& record.request == Some(decode_utf8(body))
        }),
{
}

/// A body that decodes but holds no well-formed envelope is forwarded all
/// the same, and the record appended for it, the newest of the key's
/// history, lists no parsed call. The capacity must leave room for one
/// record.
pub proof fn law_malformed_envelope_is_recorded(
    registry: RegistryModel,
    key: Seq<char>,
    body: Seq<u8>,
    date: Timestamp,
    response_time: Elapsed,
    reply: UpstreamReplyModel,
)
    requires
        registry.queue_size > 0,
        decode_spec(body) is Some,
        parse_request_spec(decode_spec(body)->0) is Err,
    ensures
        ({
            let pending = begin_call_spec(key, body);
            let counted = registry.record_request_seen(key);
            let result = forward_result_spec(reply);
            let record = call_record(pending->0, date, response_time, result);
            let after = counted.append_call(key, record);
            &&& pending is Some
            &&& pending->0.payload == decode_spec(body)->0
            &&& pending->0.parsed_request == Seq::<ParsedRequestModel>::empty()
            &&& response_spec(counted, key, result).status == result.status
            &&& after.records[key].calls.len() > 0
            &&& after.records[key].calls.last() == record
            &&& record.parsed_request == Seq::<ParsedRequestModel>::empty()
        }),
{
}

/// A body that does not decode is refused before the registry is touched:
/// no call is prepared for it.
pub proof fn law_undecodable_body_is_refused(key: Seq<char>, body: Seq<u8>)
    requires
        decode_spec(body) is None,
    ensures
        begin_call_spec(key, body) is None,
{
}

} // verus!
