//! The cache as mathematics: a map from URL to entry, the order in which the
//! entries were created, and the marker of the one refresh in flight; and
//! what each request and each maintenance pass makes of them. The executable
//! cache is specified against these functions, and the laws at the end of
//! this module are proved of them.

use crate::cache::cache_data::EntryView;
use vstd::prelude::*;

verus! {

/// Whether the moment `stamp` lies more than `limit` milliseconds before `now`.
pub open spec fn older_than(stamp: u64, now: u64, limit: u64) -> bool {
    stamp + limit < now
}

/// Whether the moment `stamp` lies more than `limit` milliseconds before
/// `now`, computed without overflow.
pub fn is_older_than(stamp: u64, now: u64, limit: u64) -> (older: bool)
    ensures
        older == older_than(stamp, now, limit),
{
    stamp < now && now - stamp > limit
}

/// What a lookup of `url` answers: the entry's text, or `None` on a miss.
pub open spec fn read_reply(entries: Map<Seq<char>, EntryView>, url: Seq<char>) -> Option<
    Seq<char>,
> {
    if entries.contains_key(url) {
        Some(entries[url].text)
    } else {
        None
    }
}

/// The entries after a lookup of `url` at `now`: a hit moves the entry's last
/// access to `now`, a miss changes nothing.
pub open spec fn after_read(entries: Map<Seq<char>, EntryView>, url: Seq<char>, now: u64) -> Map<
    Seq<char>,
    EntryView,
> {
    if entries.contains_key(url) {
        entries.insert(url, EntryView { last_access: now, ..entries[url] })
    } else {
        entries
    }
}

/// The entries after `text` was stored under `url` at `now`: an existing entry
/// gets the text and `now` as its last update, a new one is created with all
/// three timestamps at `now`.
pub open spec fn after_write(
    entries: Map<Seq<char>, EntryView>,
    url: Seq<char>,
    text: Seq<char>,
    now: u64,
) -> Map<Seq<char>, EntryView> {
    if entries.contains_key(url) {
        entries.insert(url, EntryView { text: text, last_update: now, ..entries[url] })
    } else {
        entries.insert(
            url,
            EntryView { text: text, creation: now, last_access: now, last_update: now },
        )
    }
}

/// The order of creation after something was stored under `url`: a URL that
/// is new to the entries goes to the end.
pub open spec fn order_after_write(
    entries: Map<Seq<char>, EntryView>,
    order: Seq<Seq<char>>,
    url: Seq<char>,
) -> Seq<Seq<char>> {
    if entries.contains_key(url) {
        order
    } else {
        order.push(url)
    }
}

/// Whether the entry under `url` exists and was last read more than `limit`
/// before `now`.
pub open spec fn eviction_due(
    entries: Map<Seq<char>, EntryView>,
    url: Seq<char>,
    now: u64,
    limit: u64,
) -> bool {
    entries.contains_key(url) && older_than(entries[url].last_access, now, limit)
}

/// The entries that an eviction pass at `now` leaves: those read within
/// `limit`, unchanged.
pub open spec fn after_eviction(entries: Map<Seq<char>, EntryView>, now: u64, limit: u64) -> Map<
    Seq<char>,
    EntryView,
> {
    Map::new(
        |url: Seq<char>| entries.contains_key(url) && !older_than(entries[url].last_access, now, limit),
        |url: Seq<char>| entries[url],
    )
}

/// The order of creation that an eviction pass at `now` leaves: the URLs that
/// are not due for eviction, in the order they had.
pub open spec fn order_after_eviction(
    entries: Map<Seq<char>, EntryView>,
    order: Seq<Seq<char>>,
    now: u64,
    limit: u64,
) -> Seq<Seq<char>>
    decreases order.len(),
{
    if order.len() == 0 {
        order
    } else if eviction_due(entries, order.last(), now, limit) {
        order_after_eviction(entries, order.drop_last(), now, limit)
    } else {
        order_after_eviction(entries, order.drop_last(), now, limit).push(order.last())
    }
}

/// The URLs that an eviction pass at `now` removes: those due for eviction,
/// in their order of creation.
pub open spec fn evicted(
    entries: Map<Seq<char>, EntryView>,
    order: Seq<Seq<char>>,
    now: u64,
    limit: u64,
) -> Seq<Seq<char>>
    decreases order.len(),
{
    if order.len() == 0 {
        order
    } else if eviction_due(entries, order.last(), now, limit) {
        evicted(entries, order.drop_last(), now, limit).push(order.last())
    } else {
        evicted(entries, order.drop_last(), now, limit)
    }
}

/// Whether the entry under `url` exists and was last rewritten more than
/// `limit` before `now`.
pub open spec fn update_due(
    entries: Map<Seq<char>, EntryView>,
    url: Seq<char>,
    now: u64,
    limit: u64,
) -> bool {
    entries.contains_key(url) && older_than(entries[url].last_update, now, limit)
}

/// The entry to refresh next: of those that are due, the one created first;
/// `None` if none is due.
pub open spec fn next_update(
    entries: Map<Seq<char>, EntryView>,
    order: Seq<Seq<char>>,
    now: u64,
    limit: u64,
) -> Option<Seq<char>>
    decreases order.len(),
{
    if order.len() == 0 {
        None
    } else if update_due(entries, order.first(), now, limit) {
        Some(order.first())
    } else {
        next_update(entries, order.drop_first(), now, limit)
    }
}

/// Whether `order` lists the URLs of `entries`, each once.
pub open spec fn lists_each_once(order: Seq<Seq<char>>, entries: Map<Seq<char>, EntryView>) -> bool {
    &&& order.no_duplicates()
    &&& forall|url: Seq<char>| entries.contains_key(url) <==> order.contains(url)
}

/// The state that the cache actor owns.
pub struct CacheState {
    /// The store: URL to entry.
    pub entries: Map<Seq<char>, EntryView>,
    /// The URLs of the store in the order in which their entries were created.
    pub order: Seq<Seq<char>>,
    /// The URL of the background refresh in flight, if there is one.
    pub pending: Option<Seq<char>>,
}

impl CacheState {
    /// Whether the order lists exactly the URLs of the entries, each once.
    /// Every state of a cache is well formed.
    pub open spec fn wf(self) -> bool {
        lists_each_once(self.order, self.entries)
    }
}

/// The state of a cache that has seen no request.
pub open spec fn empty_state() -> CacheState {
    CacheState { entries: Map::empty(), order: Seq::empty(), pending: None }
}

/// The marker after a set message for `url` arrived: cleared if it was for
/// `url`.
pub open spec fn marker_after_set(pending: Option<Seq<char>>, url: Seq<char>) -> Option<
    Seq<char>,
> {
    if pending == Some(url) {
        None
    } else {
        pending
    }
}

/// The state after a lookup of `url` was processed at `now`.
pub open spec fn after_get(state: CacheState, url: Seq<char>, now: u64) -> CacheState {
    CacheState {
        entries: after_read(state.entries, url, now),
        order: state.order,
        pending: state.pending,
    }
}

/// The state after a set message for `url` was processed at `now`. `Some` stores
/// the text; `None` reports a failed refresh and leaves the entries alone.
/// Either clears the marker if it was for `url`.
pub open spec fn after_set(
    state: CacheState,
    url: Seq<char>,
    content: Option<Seq<char>>,
    now: u64,
) -> CacheState {
    match content {
        Some(text) => CacheState {
            entries: after_write(state.entries, url, text, now),
            order: order_after_write(state.entries, state.order, url),
            pending: marker_after_set(state.pending, url),
        },
        None => CacheState {
            entries: state.entries,
            order: state.order,
            pending: marker_after_set(state.pending, url),
        },
    }
}

/// The refresh that a maintenance pass at `now` schedules: none while one is
/// in flight; otherwise, of the entries that the eviction left and that are
/// due by `refresh_limit`, the one created first.
pub open spec fn scheduled_by_maintenance(
    state: CacheState,
    now: u64,
    evict_limit: u64,
    refresh_limit: u64,
) -> Option<Seq<char>> {
    if state.pending is Some {
        None
    } else {
        next_update(
            after_eviction(state.entries, now, evict_limit),
            order_after_eviction(state.entries, state.order, now, evict_limit),
            now,
            refresh_limit,
        )
    }
}

/// The state after a maintenance pass at `now`: evicted by `evict_limit`, and
/// with the refresh that was scheduled, if any, marked as in flight.
pub open spec fn after_maintenance(
    state: CacheState,
    now: u64,
    evict_limit: u64,
    refresh_limit: u64,
) -> CacheState {
    CacheState {
        entries: after_eviction(state.entries, now, evict_limit),
        order: order_after_eviction(state.entries, state.order, now, evict_limit),
        pending: if state.pending is Some {
            state.pending
        } else {
            scheduled_by_maintenance(state, now, evict_limit, refresh_limit)
        },
    }
}

/// One turn of the actor's loop as the model sees it.
pub enum Turn {
    /// A lookup of `url` was processed at `at`.
    Lookup { url: Seq<char>, at: u64 },
    /// A set message for `url` was processed at `at`.
    Report { url: Seq<char>, content: Option<Seq<char>>, at: u64 },
    /// The queue was empty at `at` and maintenance ran.
    Maintenance { at: u64 },
}

/// The state after one turn.
pub open spec fn after_turn(
    state: CacheState,
    turn: Turn,
    evict_limit: u64,
    refresh_limit: u64,
) -> CacheState {
    match turn {
        Turn::Lookup { url, at } => after_get(state, url, at),
        Turn::Report { url, content, at } => after_set(state, url, content, at),
        Turn::Maintenance { at } => after_maintenance(state, at, evict_limit, refresh_limit),
    }
}

/// The state after a sequence of turns, first to last.
pub open spec fn after_turns(
    state: CacheState,
    turns: Seq<Turn>,
    evict_limit: u64,
    refresh_limit: u64,
) -> CacheState
    decreases turns.len(),
{
    if turns.len() == 0 {
        state
    } else {
        after_turn(
            after_turns(state, turns.drop_last(), evict_limit, refresh_limit),
            turns.last(),
            evict_limit,
            refresh_limit,
        )
    }
}

/// What eviction keeps of an order: exactly the URLs not due, each as often
/// as before.
pub proof fn lemma_order_after_eviction(
    entries: Map<Seq<char>, EntryView>,
    order: Seq<Seq<char>>,
    now: u64,
    limit: u64,
)
    ensures
        forall|url: Seq<char>|
            order_after_eviction(entries, order, now, limit).contains(url) <==> order.contains(url)
                && !eviction_due(entries, url, now, limit),
        order.no_duplicates() ==> order_after_eviction(entries, order, now, limit).no_duplicates(),
    decreases order.len(),
{
    let kept = order_after_eviction(entries, order, now, limit);
    if order.len() > 0 {
        let front = order.drop_last();
        let last = order.last();
        let kept_front = order_after_eviction(entries, front, now, limit);
        lemma_order_after_eviction(entries, front, now, limit);
        assert forall|url: Seq<char>| order.contains(url) <==> front.contains(url) || url
            == last by {
            if order.contains(url) {
                let k = choose|k: int| 0 <= k < order.len() && order[k] == url;
                if k < front.len() {
                    assert(front[k] == url);
                }
            }
            if front.contains(url) {
                let k = choose|k: int| 0 <= k < front.len() && front[k] == url;
                assert(order[k] == url);
            }
            if url == last {
                assert(order[order.len() - 1] == url);
            }
        }
        if eviction_due(entries, last, now, limit) {
        } else {
            assert forall|url: Seq<char>| kept.contains(url) <==> kept_front.contains(url) || url
                == last by {
                if kept.contains(url) {
                    let k = choose|k: int| 0 <= k < kept.len() && kept[k] == url;
                    if k < kept_front.len() {
                        assert(kept_front[k] == url);
                    }
                }
                if kept_front.contains(url) {
                    let k = choose|k: int| 0 <= k < kept_front.len() && kept_front[k] == url;
                    assert(kept[k] == url);
                }
                if url == last {
                    assert(kept[kept.len() - 1] == url);
                }
            }
            if order.no_duplicates() {
                assert(front.no_duplicates());
                assert(!front.contains(last)) by {
                    if front.contains(last) {
                        let k = choose|k: int| 0 <= k < front.len() && front[k] == last;
                        assert(order[k] == order[order.len() - 1]);
                    }
                }
                assert(kept.no_duplicates()) by {
                    assert forall|a: int, b: int|
                        0 <= a < kept.len() && 0 <= b < kept.len() && a != b implies kept[a]
                        != kept[b] by {
                        if a < kept_front.len() {
                            assert(kept_front.contains(kept[a]));
                        }
                        if b < kept_front.len() {
                            assert(kept_front.contains(kept[b]));
                        }
                    }
                }
            }
        }
        if order.no_duplicates() {
            assert(front.no_duplicates());
        }
    }
}

/// What eviction removes of an order: exactly the URLs due, each as often as
/// before.
pub proof fn lemma_evicted(
    entries: Map<Seq<char>, EntryView>,
    order: Seq<Seq<char>>,
    now: u64,
    limit: u64,
)
    ensures
        forall|url: Seq<char>|
            evicted(entries, order, now, limit).contains(url) <==> order.contains(url)
                && eviction_due(entries, url, now, limit),
        order.no_duplicates() ==> evicted(entries, order, now, limit).no_duplicates(),
    decreases order.len(),
{
    let gone = evicted(entries, order, now, limit);
    if order.len() > 0 {
        let front = order.drop_last();
        let last = order.last();
        let gone_front = evicted(entries, front, now, limit);
        lemma_evicted(entries, front, now, limit);
        assert forall|url: Seq<char>| order.contains(url) <==> front.contains(url) || url
            == last by {
            if order.contains(url) {
                let k = choose|k: int| 0 <= k < order.len() && order[k] == url;
                if k < front.len() {
                    assert(front[k] == url);
                }
            }
            if front.contains(url) {
                let k = choose|k: int| 0 <= k < front.len() && front[k] == url;
                assert(order[k] == url);
            }
            if url == last {
                assert(order[order.len() - 1] == url);
            }
        }
        if eviction_due(entries, last, now, limit) {
            assert forall|url: Seq<char>| gone.contains(url) <==> gone_front.contains(url) || url
                == last by {
                if gone.contains(url) {
                    let k = choose|k: int| 0 <= k < gone.len() && gone[k] == url;
                    if k < gone_front.len() {
                        assert(gone_front[k] == url);
                    }
                }
                if gone_front.contains(url) {
                    let k = choose|k: int| 0 <= k < gone_front.len() && gone_front[k] == url;
                    assert(gone[k] == url);
                }
                if url == last {
                    assert(gone[gone.len() - 1] == url);
                }
            }
            if order.no_duplicates() {
                assert(front.no_duplicates());
                assert(!front.contains(last)) by {
                    if front.contains(last) {
                        let k = choose|k: int| 0 <= k < front.len() && front[k] == last;
                        assert(order[k] == order[order.len() - 1]);
                    }
                }
                assert(gone.no_duplicates()) by {
                    assert forall|a: int, b: int|
                        0 <= a < gone.len() && 0 <= b < gone.len() && a != b implies gone[a]
                        != gone[b] by {
                        if a < gone_front.len() {
                            assert(gone_front.contains(gone[a]));
                        }
                        if b < gone_front.len() {
                            assert(gone_front.contains(gone[b]));
                        }
                    }
                }
            }
        }
        if order.no_duplicates() {
            assert(front.no_duplicates());
        }
    }
}

/// What is picked for a refresh: nothing exactly when no listed entry is due;
/// otherwise a listed entry that is due, before which no due entry is listed.
pub proof fn lemma_next_update(
    entries: Map<Seq<char>, EntryView>,
    order: Seq<Seq<char>>,
    now: u64,
    limit: u64,
)
    ensures
        match next_update(entries, order, now, limit) {
            Some(url) => exists|i: int|
                0 <= i < order.len() && order[i] == url && update_due(entries, url, now, limit)
                    && forall|j: int| 0 <= j < i ==> !update_due(entries, order[j], now, limit),
            None => forall|i: int|
                0 <= i < order.len() ==> !update_due(entries, order[i], now, limit),
        },
    decreases order.len(),
{
    if order.len() > 0 && !update_due(entries, order.first(), now, limit) {
        let rest = order.drop_first();
        lemma_next_update(entries, rest, now, limit);
        match next_update(entries, rest, now, limit) {
            Some(url) => {
                let i = choose|i: int|
                    0 <= i < rest.len() && rest[i] == url && update_due(entries, url, now, limit)
                        && forall|j: int| 0 <= j < i ==> !update_due(entries, rest[j], now, limit);
                assert(order[i + 1] == url);
                assert forall|j: int| 0 <= j < i + 1 implies !update_due(
                    entries,
                    order[j],
                    now,
                    limit,
                ) by {
                    if j > 0 {
                        assert(order[j] == rest[j - 1]);
                    }
                }
            },
            None => {
                assert forall|i: int| 0 <= i < order.len() implies !update_due(
                    entries,
                    order[i],
                    now,
                    limit,
                ) by {
                    if i > 0 {
                        assert(order[i] == rest[i - 1]);
                    }
                }
            },
        }
    } else if order.len() > 0 {
        assert(order[0] == order.first());
    }
}

/// A lookup leaves a well-formed state well formed.
pub proof fn lemma_get_keeps_wf(state: CacheState, url: Seq<char>, now: u64)
    requires
        state.wf(),
    ensures
        after_get(state, url, now).wf(),
{
}

/// A set message leaves a well-formed state well formed.
pub proof fn lemma_set_keeps_wf(
    state: CacheState,
    url: Seq<char>,
    content: Option<Seq<char>>,
    now: u64,
)
    requires
        state.wf(),
    ensures
        after_set(state, url, content, now).wf(),
{
    if content is Some && !state.entries.contains_key(url) {
        let order = state.order.push(url);
        assert forall|other: Seq<char>| order.contains(other) <==> state.order.contains(other)
            || other == url by {
            if order.contains(other) {
                let k = choose|k: int| 0 <= k < order.len() && order[k] == other;
                if k < state.order.len() {
                    assert(state.order[k] == other);
                }
            }
            if state.order.contains(other) {
                let k = choose|k: int| 0 <= k < state.order.len() && state.order[k] == other;
                assert(order[k] == other);
            }
            if other == url {
                assert(order[order.len() - 1] == other);
            }
        }
        assert(order.no_duplicates()) by {
            assert forall|a: int, b: int|
                0 <= a < order.len() && 0 <= b < order.len() && a != b implies order[a]
                != order[b] by {
                if a < state.order.len() {
                    assert(state.order.contains(order[a]));
                }
                if b < state.order.len() {
                    assert(state.order.contains(order[b]));
                }
            }
        }
    }
}

/// A maintenance pass leaves a well-formed state well formed.
pub proof fn lemma_maintenance_keeps_wf(
    state: CacheState,
    now: u64,
    evict_limit: u64,
    refresh_limit: u64,
)
    requires
        state.wf(),
    ensures
        after_maintenance(state, now, evict_limit, refresh_limit).wf(),
{
    lemma_order_after_eviction(state.entries, state.order, now, evict_limit);
    let after = after_maintenance(state, now, evict_limit, refresh_limit);
    assert forall|url: Seq<char>| after.entries.contains_key(url) <==> after.order.contains(
        url,
    ) by {
        assert(after.entries.contains_key(url) <==> state.entries.contains_key(url)
            && !eviction_due(state.entries, url, now, evict_limit));
        assert(state.entries.contains_key(url) <==> state.order.contains(url));
    }
}

/// A lookup in a cache that has seen no request misses, whatever the URL, and
/// leaves the cache as it was.
pub proof fn law_miss_before_any_set(url: Seq<char>, now: u64)
    ensures
        empty_state().wf(),
        read_reply(empty_state().entries, url) is None,
        after_get(empty_state(), url, now) == empty_state(),
{
}

/// Once a set message with `text` for `url` was processed, a lookup of `url`
/// answers `text`, and the entry's last access is the time of that lookup.
pub proof fn law_set_then_get(
    state: CacheState,
    url: Seq<char>,
    text: Seq<char>,
    set_at: u64,
    get_at: u64,
)
    ensures
        ({
            let stored = after_set(state, url, Some(text), set_at);
            let read = after_get(stored, url, get_at);
            &&& read_reply(stored.entries, url) == Some(text)
            &&& read.entries.contains_key(url)
            &&& read.entries[url].text == text
            &&& read.entries[url].last_access == get_at
        }),
{
}

/// A maintenance pass removes exactly the entries last read more than the
/// eviction limit ago: such an entry is absent afterwards, any other entry is
/// still there and unchanged.
pub proof fn law_eviction(
    state: CacheState,
    url: Seq<char>,
    now: u64,
    evict_limit: u64,
    refresh_limit: u64,
)
    requires
        state.entries.contains_key(url),
    ensures
        ({
            let after = after_maintenance(state, now, evict_limit, refresh_limit);
            if older_than(state.entries[url].last_access, now, evict_limit) {
                !after.entries.contains_key(url)
            } else {
                after.entries.contains_key(url) && after.entries[url] == state.entries[url]
            }
        }),
{
}

/// The URLs that a maintenance pass reports as removed are exactly those of
/// the entries last read more than the eviction limit ago, each once.
pub proof fn law_removed_are_those_evicted(state: CacheState, now: u64, evict_limit: u64)
    requires
        state.wf(),
    ensures
        evicted(state.entries, state.order, now, evict_limit).no_duplicates(),
        forall|url: Seq<char>|
            evicted(state.entries, state.order, now, evict_limit).contains(url) <==> eviction_due(
                state.entries,
                url,
                now,
                evict_limit,
            ),
{
    lemma_evicted(state.entries, state.order, now, evict_limit);
    let gone = evicted(state.entries, state.order, now, evict_limit);
    assert forall|url: Seq<char>| gone.contains(url) <==> eviction_due(
        state.entries,
        url,
        now,
        evict_limit,
    ) by {
        assert(state.entries.contains_key(url) <==> state.order.contains(url));
    }
}

/// While a refresh is in flight a maintenance pass schedules none, and the
/// marker stays with the refresh in flight.
pub proof fn law_no_refresh_while_one_is_pending(
    state: CacheState,
    now: u64,
    evict_limit: u64,
    refresh_limit: u64,
)
    requires
        state.pending is Some,
    ensures
        scheduled_by_maintenance(state, now, evict_limit, refresh_limit) is None,
        after_maintenance(state, now, evict_limit, refresh_limit).pending == state.pending,
{
}

/// With no refresh in flight, a maintenance pass schedules a refresh exactly
/// when an entry that survives the eviction is due for one. The entry
/// scheduled is such an entry, and it is marked as in flight.
pub proof fn law_refresh_when_due(
    state: CacheState,
    now: u64,
    evict_limit: u64,
    refresh_limit: u64,
)
    requires
        state.wf(),
        state.pending is None,
    ensures
        ({
            let after = after_maintenance(state, now, evict_limit, refresh_limit);
            let scheduled = scheduled_by_maintenance(state, now, evict_limit, refresh_limit);
            &&& after.pending == scheduled
            &&& scheduled matches Some(url) ==> update_due(after.entries, url, now, refresh_limit)
            &&& scheduled is None <==> forall|url: Seq<char>|
                !update_due(after.entries, url, now, refresh_limit)
        }),
{
    let after = after_maintenance(state, now, evict_limit, refresh_limit);
    lemma_maintenance_keeps_wf(state, now, evict_limit, refresh_limit);
    lemma_next_update(after.entries, after.order, now, refresh_limit);
    if scheduled_by_maintenance(state, now, evict_limit, refresh_limit) is None {
        assert forall|url: Seq<char>| !update_due(after.entries, url, now, refresh_limit) by {
            if after.entries.contains_key(url) {
                assert(after.order.contains(url));
                let k = choose|k: int| 0 <= k < after.order.len() && after.order[k] == url;
            }
        }
    }
}

/// With two entries due at once and no refresh in flight, a maintenance pass
/// schedules one of the due entries and marks it. The pass after it schedules
/// nothing, whenever it runs, and a set message for the marked URL, with or
/// without content, clears the marker.
pub proof fn law_single_flight(
    state: CacheState,
    first: Seq<char>,
    second: Seq<char>,
    now: u64,
    evict_limit: u64,
    refresh_limit: u64,
)
    requires
        state.wf(),
        state.pending is None,
        first != second,
        update_due(after_eviction(state.entries, now, evict_limit), first, now, refresh_limit),
        update_due(after_eviction(state.entries, now, evict_limit), second, now, refresh_limit),
    ensures
        ({
            let after = after_maintenance(state, now, evict_limit, refresh_limit);
            let scheduled = scheduled_by_maintenance(state, now, evict_limit, refresh_limit);
            &&& scheduled matches Some(url) && update_due(after.entries, url, now, refresh_limit)
            &&& after.pending == scheduled
            &&& forall|later: u64|
                #![trigger scheduled_by_maintenance(after, later, evict_limit, refresh_limit)]
                #![trigger after_maintenance(after, later, evict_limit, refresh_limit)]
                scheduled_by_maintenance(after, later, evict_limit, refresh_limit) is None
                    && after_maintenance(after, later, evict_limit, refresh_limit).pending
                    == scheduled
            &&& forall|content: Option<Seq<char>>, at: u64|
                (#[trigger] after_set(after, scheduled->0, content, at)).pending is None
        }),
{
    law_refresh_when_due(state, now, evict_limit, refresh_limit);
    let after = after_maintenance(state, now, evict_limit, refresh_limit);
    if scheduled_by_maintenance(state, now, evict_limit, refresh_limit) is None {
        assert(!update_due(after.entries, first, now, refresh_limit));
    }
}

/// An entry's timestamps move only with their cause: through any one turn
/// that keeps the entry, its creation time stays; its last access changes
/// only by a lookup of its URL, and then to the time of the lookup; its text
/// and its last update change only by a set message with content for its
/// URL, and then to that content and the time of the message.
pub proof fn law_timestamps_move_with_their_cause(
    state: CacheState,
    turn: Turn,
    url: Seq<char>,
    evict_limit: u64,
    refresh_limit: u64,
)
    requires
        state.entries.contains_key(url),
        after_turn(state, turn, evict_limit, refresh_limit).entries.contains_key(url),
    ensures
        ({
            let before = state.entries[url];
            let after = after_turn(state, turn, evict_limit, refresh_limit).entries[url];
            &&& after.creation == before.creation
            &&& after.last_access == (match turn {
                Turn::Lookup { url: looked_up, at } => if looked_up == url {
                    at
                } else {
                    before.last_access
                },
                _ => before.last_access,
            })
            &&& (after.text, after.last_update) == (match turn {
                Turn::Report { url: reported, content: Some(text), at } => if reported == url {
                    (text, at)
                } else {
                    (before.text, before.last_update)
                },
                _ => (before.text, before.last_update),
            })
        }),
{
}

/// Whatever turns a cache has taken since it was created, its state is well
/// formed.
pub proof fn law_every_state_is_well_formed(
    turns: Seq<Turn>,
    evict_limit: u64,
    refresh_limit: u64,
)
    ensures
        after_turns(empty_state(), turns, evict_limit, refresh_limit).wf(),
    decreases turns.len(),
{
    if turns.len() > 0 {
        law_every_state_is_well_formed(turns.drop_last(), evict_limit, refresh_limit);
        let before = after_turns(empty_state(), turns.drop_last(), evict_limit, refresh_limit);
        match turns.last() {
            Turn::Lookup { url, at } => lemma_get_keeps_wf(before, url, at),
            Turn::Report { url, content, at } => lemma_set_keeps_wf(before, url, content, at),
            Turn::Maintenance { at } => lemma_maintenance_keeps_wf(
                before,
                at,
                evict_limit,
                refresh_limit,
            ),
        }
    }
}

/// A refresh in flight stays the only one until its own set message arrives:
/// through any turns that bring no set message for the marked URL, the marker
/// stays as it is and no maintenance pass schedules a refresh.
pub proof fn law_marker_stays_until_its_set_message(
    state: CacheState,
    turns: Seq<Turn>,
    evict_limit: u64,
    refresh_limit: u64,
)
    requires
        state.pending is Some,
        forall|i: int|
            0 <= i < turns.len() ==> !(#[trigger] turns[i] matches Turn::Report { url, .. }
                && state.pending == Some(url)),
    ensures
        after_turns(state, turns, evict_limit, refresh_limit).pending == state.pending,
        forall|i: int|
            0 <= i < turns.len() ==> (#[trigger] turns[i] matches Turn::Maintenance { at }
                ==> scheduled_by_maintenance(
                after_turns(state, turns.take(i), evict_limit, refresh_limit),
                at,
                evict_limit,
                refresh_limit,
            ) is None),
    decreases turns.len(),
{
    if turns.len() > 0 {
        let front = turns.drop_last();
        assert forall|i: int| 0 <= i < front.len() implies !(#[trigger] front[i] matches Turn::Report {
            url,
            ..
        } && state.pending == Some(url)) by {
            assert(front[i] == turns[i]);
        }
        law_marker_stays_until_its_set_message(state, front, evict_limit, refresh_limit);
        assert(turns[turns.len() - 1] == turns.last());
        assert forall|i: int| 0 <= i < turns.len() implies (#[trigger] turns[i] matches Turn::Maintenance {
            at,
        } ==> scheduled_by_maintenance(
            after_turns(state, turns.take(i), evict_limit, refresh_limit),
            at,
            evict_limit,
            refresh_limit,
        ) is None) by {
            if i < front.len() {
                assert(front[i] == turns[i]);
                assert(turns.take(i) =~= front.take(i));
            } else {
                assert(turns.take(i) =~= front);
            }
        }
    }
}

} // verus!
