//! A sliding-window limit on requests, counted for each client apart.

use crate::clock::unix_seconds;
use vstd::hash_map::StringHashMap;
use vstd::prelude::*;

verus! {

/// The length of the window, in seconds.
pub const WINDOW_SECS: u64 = 60;

/// The most requests one client is granted inside one window.
pub const MAX_REQUESTS: usize = 10;

/// Whether a request made at `stamp` still counts at `now`: it does while
/// less than `WINDOW_SECS` seconds have passed since. A stamp that lies after
/// `now` counts.
pub open spec fn in_window(stamp: u64, now: u64) -> bool {
    now - stamp < WINDOW_SECS
}

/// The test for a stamp that still counts at `now`.
pub open spec fn window(now: u64) -> spec_fn(u64) -> bool {
    |stamp: u64| in_window(stamp, now)
}

/// The stamps among `stamps` that still count at `now`, in their order.
pub open spec fn recent(stamps: Seq<u64>, now: u64) -> Seq<u64> {
    stamps.filter(window(now))
}

/// Whether a client with these stamps on record is granted a request at
/// `now`.
pub open spec fn admits(stamps: Seq<u64>, now: u64) -> bool {
    recent(stamps, now).len() < MAX_REQUESTS
}

/// The stamps on record for a client after a request at `now`: those that
/// still count, and `now` itself if the request is granted.
pub open spec fn after_request(stamps: Seq<u64>, now: u64) -> Seq<u64> {
    if admits(stamps, now) {
        recent(stamps, now).push(now)
    } else {
        recent(stamps, now)
    }
}

/// The stamps on record for a client: none for a client never seen.
pub open spec fn stamps_of(records: Map<Seq<char>, Seq<u64>>, client: Seq<char>) -> Seq<u64> {
    if records.contains_key(client) {
        records[client]
    } else {
        Seq::empty()
    }
}

/// The records after a request of `client` at `now`. Only that client's
/// stamps change.
pub open spec fn records_after(
    records: Map<Seq<char>, Seq<u64>>,
    client: Seq<char>,
    now: u64,
) -> Map<Seq<char>, Seq<u64>> {
    records.insert(client, after_request(stamps_of(records, client), now))
}

/// The requests on record, for each client the times of those that were
/// granted and still counted at the client's last request.
pub struct RateLimitStore {
    entries: StringHashMap<Vec<u64>>,
}

impl View for RateLimitStore {
    type V = Map<Seq<char>, Seq<u64>>;

    closed spec fn view(&self) -> Map<Seq<char>, Seq<u64>> {
        self.entries@.map_values(|stamps: Vec<u64>| stamps@)
    }
}

/// The stamps among `stamps` that still count at `now`.
pub fn retain_recent(stamps: &Vec<u64>, now: u64) -> (kept: Vec<u64>)
    ensures
        kept@ == recent(stamps@, now),
{
    let mut kept: Vec<u64> = Vec::new();
    let mut i: usize = 0;
    proof {
        reveal(Seq::filter);
    }
    while i < stamps.len()
        invariant
            i <= stamps.len(),
            kept@ == recent(stamps@.take(i as int), now),
        decreases stamps.len() - i,
    {
        let stamp = stamps[i];
        proof {
            reveal(Seq::filter);
            assert(stamps@.take(i + 1).drop_last() =~= stamps@.take(i as int));
        }
        if stamp > now || now - stamp < WINDOW_SECS {
            kept.push(stamp);
        }
        i += 1;
    }
    proof {
        assert(stamps@.take(i as int) =~= stamps@);
    }
    kept
}

impl RateLimitStore {
    /// A store with nothing on record.
    pub fn new() -> (store: RateLimitStore)
        ensures
            store@ == Map::<Seq<char>, Seq<u64>>::empty(),
    {
        RateLimitStore { entries: StringHashMap::new() }
    }

    /// Puts `stamps` on record for `client`, in place of what was there.
    pub fn insert(&mut self, client: &str, stamps: Vec<u64>)
        ensures
            final(self)@ == old(self)@.insert(client@, stamps@),
    {
        self.entries.insert(client.to_owned(), stamps);
    }

    /// The stamps on record for `client`.
    pub fn stamps(&self, client: &str) -> (stamps: Vec<u64>)
        ensures
            stamps@ == stamps_of(self@, client@),
    {
        match self.entries.get(client) {
            Some(found) => found.clone(),
            None => Vec::new(),
        }
    }
}

/// Decides on a request of `client` at `now` and puts it on record: stamps
/// that no longer count are dropped, and the request is granted unless
/// `MAX_REQUESTS` stamps remain. A granted request is recorded at `now`; one
/// that is turned down leaves no stamp.
pub fn check_rate_limit_at(store: &mut RateLimitStore, client: &str, now: u64) -> (granted: bool)
    ensures
        granted == admits(stamps_of(old(store)@, client@), now),
        final(store)@ == records_after(old(store)@, client@, now),
{
    let mut kept = match store.entries.get(client) {
        Some(stamps) => retain_recent(stamps, now),
        None => {
            proof {
                reveal(Seq::filter);
            }
            Vec::new()
        },
    };
    let granted = kept.len() < MAX_REQUESTS;
    if granted {
        kept.push(now);
    }
    store.insert(client, kept);
    granted
}

/// Decides on a request of `client` at the time that the system clock
/// shows, as `check_rate_limit_at` does for that time.
pub fn check_rate_limit(store: &mut RateLimitStore, client: &str) -> (granted: bool)
    ensures
        exists|now: u64|
            granted == #[trigger] admits(stamps_of(old(store)@, client@), now) && final(store)@
                == records_after(old(store)@, client@, now),
{
    let now = unix_seconds();
    check_rate_limit_at(store, client, now)
}

/// Whether the times stand in order: none is earlier than one before it.
pub open spec fn in_order(times: Seq<u64>) -> bool {
    forall|i: int, j: int| 0 <= i <= j < times.len() ==> times[i] <= times[j]
}

/// The stamps on record for a client that had `start` on record and then
/// made requests at `times`, one after the other.
pub open spec fn replay_from(start: Seq<u64>, times: Seq<u64>) -> Seq<u64>
    decreases times.len(),
{
    if times.len() == 0 {
        start
    } else {
        after_request(replay_from(start, times.drop_last()), times.last())
    }
}

/// The stamps on record for a client that was never seen before and then
/// made requests at `times`, one after the other.
pub open spec fn replay(times: Seq<u64>) -> Seq<u64> {
    replay_from(Seq::empty(), times)
}

/// The times of the requests that were granted, among the requests that a
/// client never seen before made at `times`, one after the other.
pub open spec fn granted_times(times: Seq<u64>) -> Seq<u64>
    decreases times.len(),
{
    if times.len() == 0 {
        Seq::empty()
    } else {
        let earlier = granted_times(times.drop_last());
        if admits(replay(times.drop_last()), times.last()) {
            earlier.push(times.last())
        } else {
            earlier
        }
    }
}

/// The records after some requests, each the client that made it and its
/// time, one after the other.
pub open spec fn records_after_all(
    records: Map<Seq<char>, Seq<u64>>,
    requests: Seq<(Seq<char>, u64)>,
) -> Map<Seq<char>, Seq<u64>>
    decreases requests.len(),
{
    if requests.len() == 0 {
        records
    } else {
        records_after(
            records_after_all(records, requests.drop_last()),
            requests.last().0,
            requests.last().1,
        )
    }
}

/// The times of the requests that `client` made among `requests`.
pub open spec fn times_of(requests: Seq<(Seq<char>, u64)>, client: Seq<char>) -> Seq<u64>
    decreases requests.len(),
{
    if requests.len() == 0 {
        Seq::empty()
    } else {
        let earlier = times_of(requests.drop_last(), client);
        if requests.last().0 == client {
            earlier.push(requests.last().1)
        } else {
            earlier
        }
    }
}

proof fn lemma_granted_bounded(times: Seq<u64>, bound: u64)
    requires
        forall|i: int| 0 <= i < times.len() ==> times[i] <= bound,
    ensures
        forall|k: int| 0 <= k < granted_times(times).len() ==> granted_times(times)[k] <= bound,
    decreases times.len(),
{
    if times.len() > 0 {
        let earlier = granted_times(times.drop_last());
        lemma_granted_bounded(times.drop_last(), bound);
        assert forall|k: int| 0 <= k < granted_times(times).len() implies granted_times(times)[k]
            <= bound by {
            if k < earlier.len() {
                assert(granted_times(times)[k] == earlier[k]);
            } else {
                assert(granted_times(times)[k] == times[times.len() - 1]);
            }
        }
    }
}

proof fn lemma_window_narrows(stamps: Seq<u64>, earlier: u64, now: u64)
    requires
        earlier <= now,
        forall|k: int| 0 <= k < stamps.len() ==> stamps[k] <= earlier,
    ensures
        recent(recent(stamps, earlier), now) == recent(stamps, now),
    decreases stamps.len(),
{
    reveal(Seq::filter);
    if stamps.len() > 0 {
        let before = stamps.drop_last();
        let last = stamps.last();
        lemma_window_narrows(before, earlier, now);
        assert(stamps =~= before.push(last));
        before.lemma_filter_push(last, window(earlier));
        before.lemma_filter_push(last, window(now));
        if in_window(last, earlier) {
            recent(before, earlier).lemma_filter_push(last, window(now));
        }
    }
}

proof fn lemma_replay_counts_granted(times: Seq<u64>, now: u64)
    requires
        in_order(times.push(now)),
    ensures
        recent(replay(times), now) == recent(granted_times(times), now),
    decreases times.len(),
{
    reveal(Seq::filter);
    let all = times.push(now);
    if times.len() > 0 {
        let before = times.drop_last();
        let last = times.last();
        assert(all[times.len() - 1] == last && all[times.len() as int] == now);
        assert(in_order(before.push(last))) by {
            assert(before.push(last) =~= times);
            assert forall|i: int, j: int| 0 <= i <= j < times.len() implies times[i] <= times[j] by {
                assert(all[i] == times[i] && all[j] == times[j]);
            }
        }
        lemma_replay_counts_granted(before, last);
        assert forall|i: int| 0 <= i < before.len() implies before[i] <= last by {
            assert(all[i] == before[i]);
        }
        lemma_granted_bounded(before, last);
        lemma_window_narrows(granted_times(before), last, now);
        let kept = recent(replay(before), last);
        if admits(replay(before), last) {
            kept.lemma_filter_push(last, window(now));
            granted_times(before).lemma_filter_push(last, window(now));
        }
    }
}

proof fn lemma_granted_among_requests(times: Seq<u64>, now: u64)
    ensures
        recent(granted_times(times), now).len() <= recent(times, now).len(),
    decreases times.len(),
{
    reveal(Seq::filter);
    if times.len() > 0 {
        let before = times.drop_last();
        lemma_granted_among_requests(before, now);
        assert(times =~= before.push(times.last()));
        before.lemma_filter_push(times.last(), window(now));
        granted_times(before).lemma_filter_push(times.last(), window(now));
    }
}

/// The window slides. Take the requests of one client in the order of their
/// times, the first of them from a client never seen before. A further
/// request is granted exactly if fewer than `MAX_REQUESTS` of the earlier
/// ones were granted less than `WINDOW_SECS` seconds before it. So it is
/// granted whenever fewer than `MAX_REQUESTS` earlier requests, granted or
/// not, lie that close before it.
pub proof fn lemma_sliding_window(times: Seq<u64>, now: u64)
    requires
        in_order(times.push(now)),
    ensures
        admits(replay(times), now) <==> recent(granted_times(times), now).len() < MAX_REQUESTS,
        recent(times, now).len() < MAX_REQUESTS ==> admits(replay(times), now),
{
    lemma_replay_counts_granted(times, now);
    lemma_granted_among_requests(times, now);
}

proof fn lemma_all_recent(stamps: Seq<u64>, now: u64)
    requires
        forall|i: int| 0 <= i < stamps.len() ==> in_window(stamps[i], now),
    ensures
        recent(stamps, now) == stamps,
    decreases stamps.len(),
{
    reveal(Seq::filter);
    if stamps.len() > 0 {
        lemma_all_recent(stamps.drop_last(), now);
        assert(stamps.drop_last().push(stamps.last()) =~= stamps);
    }
}

proof fn lemma_burst_granted(times: Seq<u64>)
    requires
        in_order(times),
        times.len() > 0 ==> times.last() - times[0] < WINDOW_SECS,
    ensures
        granted_times(times) == if times.len() <= MAX_REQUESTS {
            times
        } else {
            times.take(MAX_REQUESTS as int)
        },
    decreases times.len(),
{
    if times.len() > 0 {
        let before = times.drop_last();
        let last = times.last();
        assert(times =~= before.push(last));
        assert forall|i: int, j: int| 0 <= i <= j < before.len() implies before[i] <= before[j] by {
            assert(times[i] == before[i] && times[j] == before[j]);
        }
        if before.len() > 0 {
            assert(before.last() == times[times.len() - 2]);
            assert(before[0] == times[0]);
        }
        lemma_burst_granted(before);
        lemma_sliding_window(before, last);
        let earlier = granted_times(before);
        assert forall|i: int| 0 <= i < earlier.len() implies in_window(earlier[i], last) by {
            assert(earlier[i] == times[i]);
        }
        lemma_all_recent(earlier, last);
        if before.len() < MAX_REQUESTS {
            assert(earlier.push(last) =~= times);
        } else {
            assert(before.take(MAX_REQUESTS as int) =~= times.take(MAX_REQUESTS as int));
        }
    }
}

/// Inside one window the first `MAX_REQUESTS` requests of a client are
/// granted and every further one is turned down. Take the requests of one
/// client in the order of their times, the first of them from a client never
/// seen before, and a further request less than `WINDOW_SECS` seconds after
/// the first: it is granted exactly if fewer than `MAX_REQUESTS` went before
/// it.
pub proof fn lemma_burst(times: Seq<u64>, now: u64)
    requires
        in_order(times.push(now)),
        times.len() > 0 ==> in_window(times[0], now),
    ensures
        admits(replay(times), now) <==> times.len() < MAX_REQUESTS,
{
    let all = times.push(now);
    assert forall|i: int, j: int| 0 <= i <= j < times.len() implies times[i] <= times[j] by {
        assert(all[i] == times[i] && all[j] == times[j]);
    }
    assert forall|i: int| 0 <= i < times.len() implies times[0] <= #[trigger] times[i] && times[i]
        <= now by {
        assert(all[0] == times[0] && all[i] == times[i] && all[times.len() as int] == now);
    }
    if times.len() > 0 {
        assert(times.last() == times[times.len() - 1]);
    }
    lemma_burst_granted(times);
    lemma_sliding_window(times, now);
    let earlier = granted_times(times);
    assert forall|i: int| 0 <= i < earlier.len() implies in_window(earlier[i], now) by {
        assert(earlier[i] == times[i]);
    }
    lemma_all_recent(earlier, now);
}

/// The record of a client stays small: whatever requests a client never seen
/// before makes, no more than `MAX_REQUESTS` stamps are on record for it.
pub proof fn lemma_record_bounded(times: Seq<u64>)
    ensures
        replay(times).len() <= MAX_REQUESTS,
    decreases times.len(),
{
    if times.len() > 0 {
        let before = replay(times.drop_last());
        lemma_record_bounded(times.drop_last());
        before.lemma_filter_len(window(times.last()));
    }
}

/// Once every stamp on record has aged out of the window, a request is
/// granted, however many stamps there are, and its stamp is the only one
/// left on record.
pub proof fn lemma_aged_record_admits(stamps: Seq<u64>, now: u64)
    requires
        forall|i: int| 0 <= i < stamps.len() ==> !in_window(stamps[i], now),
    ensures
        recent(stamps, now) == Seq::<u64>::empty(),
        admits(stamps, now),
        after_request(stamps, now) == seq![now],
    decreases stamps.len(),
{
    reveal(Seq::filter);
    if stamps.len() > 0 {
        lemma_aged_record_admits(stamps.drop_last(), now);
    }
}

/// Clients are counted apart: a request changes what is on record for the
/// client that made it and for no other, so it never changes whether a
/// request of another client is granted.
pub proof fn lemma_other_client_untouched(
    records: Map<Seq<char>, Seq<u64>>,
    client: Seq<char>,
    now: u64,
    other: Seq<char>,
    later: u64,
)
    requires
        other != client,
    ensures
        stamps_of(records_after(records, client, now), other) == stamps_of(records, other),
        admits(stamps_of(records_after(records, client, now), other), later) == admits(
            stamps_of(records, other),
            later,
        ),
{
}

/// Clients are counted apart, over any run of requests: what is on record
/// for a client afterwards is what its own requests alone would have left,
/// whatever other clients asked for in between.
pub proof fn lemma_clients_counted_apart(
    records: Map<Seq<char>, Seq<u64>>,
    requests: Seq<(Seq<char>, u64)>,
    client: Seq<char>,
)
    ensures
        stamps_of(records_after_all(records, requests), client) == replay_from(
            stamps_of(records, client),
            times_of(requests, client),
        ),
    decreases requests.len(),
{
    if requests.len() > 0 {
        let before = requests.drop_last();
        lemma_clients_counted_apart(records, before, client);
        if requests.last().0 == client {
            let times = times_of(before, client).push(requests.last().1);
            assert(times.drop_last() =~= times_of(before, client));
        }
    }
}

/// The limit holds for every client, whatever the others do. Start with
/// nothing on record and take any run of requests of any clients in which
/// the times of one client's requests stand in order. A further request of
/// that client is granted exactly if fewer than `MAX_REQUESTS` of its own
/// earlier requests were granted less than `WINDOW_SECS` seconds before it.
pub proof fn lemma_limit_for_every_client(
    requests: Seq<(Seq<char>, u64)>,
    client: Seq<char>,
    now: u64,
)
    requires
        in_order(times_of(requests, client).push(now)),
    ensures
        admits(stamps_of(records_after_all(Map::empty(), requests), client), now) <==> recent(
            granted_times(times_of(requests, client)),
            now,
        ).len() < MAX_REQUESTS,
{
    lemma_clients_counted_apart(Map::empty(), requests, client);
    lemma_sliding_window(times_of(requests, client), now);
}

} // verus!
