//! The store behind the cache: entries kept in a vector, one per URL.

use crate::cache::cache_data::CacheData;
use crate::cache::cache_data::EntryView;
use crate::cache::model::after_eviction;
use crate::cache::model::after_read;
use crate::cache::model::after_write;
use crate::cache::model::eviction_due;
use crate::cache::model::evicted;
use crate::cache::model::is_older_than;
use crate::cache::model::lists_each_once;
use crate::cache::model::next_update;
use crate::cache::model::older_than;
use crate::cache::model::order_after_eviction;
use crate::cache::model::order_after_write;
use crate::cache::model::read_reply;
use crate::cache::model::update_due;
use crate::text::names;
use crate::text::same_text;
use crate::text::text_of;
use vstd::prelude::*;

verus! {

/// One entry with the URL it is kept under.
struct CacheSlot {
    url: String,
    data: CacheData,
}

/// Whether slot `i` of `slots` is the one for `url`.
spec fn holds_at(slots: Seq<CacheSlot>, url: Seq<char>, i: int) -> bool {
    0 <= i < slots.len() && slots[i].url@ == url
}

/// Whether no URL has two slots.
spec fn distinct_urls(slots: Seq<CacheSlot>) -> bool {
    forall|i: int, j: int| 0 <= i < j < slots.len() ==> slots[i].url@ != slots[j].url@
}

/// The map that a sequence of slots stands for.
spec fn slots_map(slots: Seq<CacheSlot>) -> Map<Seq<char>, EntryView> {
    Map::new(
        |url: Seq<char>| exists|i: int| holds_at(slots, url, i),
        |url: Seq<char>| slots[choose|i: int| holds_at(slots, url, i)].data@,
    )
}

/// The URLs of a sequence of slots, in slot order.
spec fn slot_urls(slots: Seq<CacheSlot>) -> Seq<Seq<char>> {
    slots.map_values(|slot: CacheSlot| slot.url@)
}

proof fn lemma_urls_list_the_map(slots: Seq<CacheSlot>)
    requires
        distinct_urls(slots),
    ensures
        lists_each_once(slot_urls(slots), slots_map(slots)),
{
    let urls = slot_urls(slots);
    assert forall|url: Seq<char>| slots_map(slots).contains_key(url) <==> urls.contains(url) by {
        if slots_map(slots).contains_key(url) {
            let k = choose|k: int| holds_at(slots, url, k);
            assert(urls[k] == url);
        }
        if urls.contains(url) {
            let k = choose|k: int| 0 <= k < urls.len() && urls[k] == url;
            assert(holds_at(slots, url, k));
        }
    }
}

proof fn lemma_slot_is_mapped(slots: Seq<CacheSlot>, i: int)
    requires
        distinct_urls(slots),
        0 <= i < slots.len(),
    ensures
        slots_map(slots).contains_key(slots[i].url@),
        slots_map(slots)[slots[i].url@] == slots[i].data@,
{
    let url = slots[i].url@;
    assert(holds_at(slots, url, i));
    let k = choose|k: int| holds_at(slots, url, k);
    assert(k == i);
}

proof fn lemma_unheld_is_unmapped(slots: Seq<CacheSlot>, url: Seq<char>)
    requires
        forall|i: int| 0 <= i < slots.len() ==> slots[i].url@ != url,
    ensures
        !slots_map(slots).contains_key(url),
{
}

proof fn lemma_mapped_is_held(slots: Seq<CacheSlot>, url: Seq<char>) -> (i: int)
    requires
        distinct_urls(slots),
        slots_map(slots).contains_key(url),
    ensures
        holds_at(slots, url, i),
        slots_map(slots)[url] == slots[i].data@,
{
    let i = choose|i: int| holds_at(slots, url, i);
    i
}

proof fn lemma_replace(slots: Seq<CacheSlot>, i: int, slot: CacheSlot)
    requires
        distinct_urls(slots),
        0 <= i < slots.len(),
        slot.url@ == slots[i].url@,
    ensures
        distinct_urls(slots.update(i, slot)),
        slots_map(slots.update(i, slot)) == slots_map(slots).insert(slot.url@, slot.data@),
{
    let after = slots.update(i, slot);
    assert(distinct_urls(after)) by {
        assert forall|a: int, b: int| 0 <= a < b < after.len() implies after[a].url@
            != after[b].url@ by {
            assert(after[a].url@ == slots[a].url@);
            assert(after[b].url@ == slots[b].url@);
        }
    }
    let want = slots_map(slots).insert(slot.url@, slot.data@);
    assert forall|url: Seq<char>| slots_map(after).contains_key(url) == want.contains_key(
        url,
    ) by {
        if slots_map(after).contains_key(url) {
            let k = choose|k: int| holds_at(after, url, k);
            assert(holds_at(slots, url, k));
        }
        if want.contains_key(url) {
            if url == slot.url@ {
                assert(holds_at(after, url, i));
            } else {
                let k = choose|k: int| holds_at(slots, url, k);
                assert(holds_at(after, url, k));
            }
        }
    }
    assert forall|url: Seq<char>| slots_map(after).contains_key(url) implies slots_map(after)[url]
        == want[url] by {
        let k = lemma_mapped_is_held(after, url);
        if k == i {
        } else {
            assert(holds_at(slots, url, k));
            lemma_slot_is_mapped(slots, k);
        }
    }
    assert(slots_map(after) =~= want);
}

proof fn lemma_push(slots: Seq<CacheSlot>, slot: CacheSlot)
    requires
        distinct_urls(slots),
        !slots_map(slots).contains_key(slot.url@),
    ensures
        distinct_urls(slots.push(slot)),
        slots_map(slots.push(slot)) == slots_map(slots).insert(slot.url@, slot.data@),
{
    let after = slots.push(slot);
    let last = slots.len() as int;
    assert(distinct_urls(after)) by {
        assert forall|a: int, b: int| 0 <= a < b < after.len() implies after[a].url@
            != after[b].url@ by {
            if b == last {
                assert(holds_at(slots, slots[a].url@, a));
            }
        }
    }
    let want = slots_map(slots).insert(slot.url@, slot.data@);
    assert forall|url: Seq<char>| slots_map(after).contains_key(url) == want.contains_key(
        url,
    ) by {
        if slots_map(after).contains_key(url) {
            let k = choose|k: int| holds_at(after, url, k);
            if k != last {
                assert(holds_at(slots, url, k));
            }
        }
        if want.contains_key(url) {
            if url == slot.url@ {
                assert(holds_at(after, url, last));
            } else {
                let k = choose|k: int| holds_at(slots, url, k);
                assert(holds_at(after, url, k));
            }
        }
    }
    assert forall|url: Seq<char>| slots_map(after).contains_key(url) implies slots_map(after)[url]
        == want[url] by {
        let k = lemma_mapped_is_held(after, url);
        if k == last {
        } else {
            assert(holds_at(slots, url, k));
            lemma_slot_is_mapped(slots, k);
        }
    }
    assert(slots_map(after) =~= want);
}

proof fn lemma_remove(slots: Seq<CacheSlot>, i: int)
    requires
        distinct_urls(slots),
        0 <= i < slots.len(),
    ensures
        distinct_urls(slots.remove(i)),
        slots_map(slots.remove(i)) == slots_map(slots).remove(slots[i].url@),
{
    let after = slots.remove(i);
    let gone = slots[i].url@;
    assert forall|k: int| 0 <= k < after.len() implies after[k] == slots[if k < i {
        k
    } else {
        k + 1
    }] by {}
    assert(distinct_urls(after)) by {
        assert forall|a: int, b: int| 0 <= a < b < after.len() implies after[a].url@
            != after[b].url@ by {
            let a0 = if a < i { a } else { a + 1 };
            let b0 = if b < i { b } else { b + 1 };
            assert(after[a] == slots[a0]);
            assert(after[b] == slots[b0]);
        }
    }
    let want = slots_map(slots).remove(gone);
    assert forall|url: Seq<char>| slots_map(after).contains_key(url) == want.contains_key(
        url,
    ) by {
        if slots_map(after).contains_key(url) {
            let k = choose|k: int| holds_at(after, url, k);
            let k0 = if k < i { k } else { k + 1 };
            assert(after[k] == slots[k0]);
            assert(holds_at(slots, url, k0));
        }
        if want.contains_key(url) {
            let k0 = choose|k: int| holds_at(slots, url, k);
            let k = if k0 < i { k0 } else { k0 - 1 };
            assert(after[k] == slots[k0]);
            assert(holds_at(after, url, k));
        }
    }
    assert forall|url: Seq<char>| slots_map(after).contains_key(url) implies slots_map(after)[url]
        == want[url] by {
        let k = lemma_mapped_is_held(after, url);
        let k0 = if k < i { k } else { k + 1 };
        assert(after[k] == slots[k0]);
        assert(holds_at(slots, url, k0));
        lemma_slot_is_mapped(slots, k0);
    }
    assert(slots_map(after) =~= want);
}

proof fn lemma_count(slots: Seq<CacheSlot>)
    requires
        distinct_urls(slots),
    ensures
        slots_map(slots).dom().finite(),
        slots_map(slots).dom().len() == slots.len(),
    decreases slots.len(),
{
    if slots.len() == 0 {
        assert(slots_map(slots).dom() =~= Set::<Seq<char>>::empty());
    } else {
        let front = slots.drop_last();
        let last = slots.last();
        assert(distinct_urls(front)) by {
            assert forall|a: int, b: int| 0 <= a < b < front.len() implies front[a].url@
                != front[b].url@ by {
                assert(front[a] == slots[a] && front[b] == slots[b]);
            }
        }
        lemma_count(front);
        assert(!slots_map(front).contains_key(last.url@)) by {
            assert forall|k: int| 0 <= k < front.len() implies front[k].url@ != last.url@ by {
                assert(front[k] == slots[k]);
            }
            lemma_unheld_is_unmapped(front, last.url@);
        }
        assert(slots =~= front.push(last));
        lemma_push(front, last);
        assert(slots_map(slots).dom() =~= slots_map(front).dom().insert(last.url@));
    }
}

/// One step of an eviction pass: what becomes of the slots kept and of the
/// URLs removed so far when slot `n` is looked at.
proof fn lemma_eviction_step(all: Seq<CacheSlot>, n: int, kept: Seq<CacheSlot>, now: u64, limit: u64)
    requires
        distinct_urls(all),
        0 <= n < all.len(),
        distinct_urls(kept),
        slots_map(kept) == after_eviction(slots_map(all.take(n)), now, limit),
    ensures
        eviction_due(slots_map(all), all[n].url@, now, limit) == older_than(
            all[n].data@.last_access,
            now,
            limit,
        ),
        slot_urls(all).take(n + 1).drop_last() == slot_urls(all).take(n),
        slot_urls(all).take(n + 1).last() == all[n].url@,
        older_than(all[n].data@.last_access, now, limit) ==> slots_map(kept) == after_eviction(
            slots_map(all.take(n + 1)),
            now,
            limit,
        ),
        !older_than(all[n].data@.last_access, now, limit) ==> {
            &&& distinct_urls(kept.push(all[n]))
            &&& slots_map(kept.push(all[n])) == after_eviction(
                slots_map(all.take(n + 1)),
                now,
                limit,
            )
            &&& slot_urls(kept.push(all[n])) == slot_urls(kept).push(all[n].url@)
        },
{
    let seen = all.take(n);
    let slot = all[n];
    let before = slots_map(seen);
    let after = slots_map(all.take(n + 1));
    lemma_slot_is_mapped(all, n);
    assert(slot_urls(all).take(n + 1).drop_last() =~= slot_urls(all).take(n));
    assert(slot_urls(kept.push(slot)) =~= slot_urls(kept).push(slot.url@));
    assert(distinct_urls(seen)) by {
        assert forall|a: int, b: int| 0 <= a < b < seen.len() implies seen[a].url@
            != seen[b].url@ by {
            assert(seen[a] == all[a] && seen[b] == all[b]);
        }
    }
    assert(!before.contains_key(slot.url@)) by {
        assert forall|k: int| 0 <= k < seen.len() implies seen[k].url@ != slot.url@ by {
            assert(seen[k] == all[k]);
        }
        lemma_unheld_is_unmapped(seen, slot.url@);
    }
    assert(all.take(n + 1) =~= seen.push(slot));
    lemma_push(seen, slot);
    assert(after == before.insert(slot.url@, slot.data@));
    if older_than(slot.data@.last_access, now, limit) {
        assert(after_eviction(after, now, limit) =~= after_eviction(before, now, limit));
    } else {
        assert(!slots_map(kept).contains_key(slot.url@));
        lemma_push(kept, slot);
        assert(after_eviction(after, now, limit) =~= after_eviction(before, now, limit).insert(
            slot.url@,
            slot.data@,
        ));
    }
}

/// The article cache's entries, one per URL.
pub struct CacheStore {
    slots: Vec<CacheSlot>,
}

impl View for CacheStore {
    type V = Map<Seq<char>, EntryView>;

    closed spec fn view(&self) -> Map<Seq<char>, EntryView> {
        slots_map(self.slots@)
    }
}

impl CacheStore {
    #[verifier::type_invariant]
    spec fn one_slot_per_url(self) -> bool {
        distinct_urls(self.slots@)
    }

    /// The URLs of the entries in the order in which the entries were created.
    pub closed spec fn order(&self) -> Seq<Seq<char>> {
        slot_urls(self.slots@)
    }

    /// A store without entries.
    pub fn new() -> (store: CacheStore)
        ensures
            store@ == Map::<Seq<char>, EntryView>::empty(),
            store.order() == Seq::<Seq<char>>::empty(),
            lists_each_once(store.order(), store@),
    {
        let store = CacheStore { slots: Vec::new() };
        assert(store@ =~= Map::<Seq<char>, EntryView>::empty());
        assert(store.order() =~= Seq::<Seq<char>>::empty());
        proof {
            lemma_urls_list_the_map(store.slots@);
        }
        store
    }

    /// Brings to mind that the order lists the URLs of the entries, each once.
    pub(crate) fn recall_consistency(&self)
        ensures
            lists_each_once(self.order(), self@),
    {
        proof {
            use_type_invariant(self);
            lemma_urls_list_the_map(self.slots@);
        }
    }

    /// Where the entry for `url` is kept, if there is one.
    fn position(&self, url: &str) -> (found: Option<usize>)
        ensures
            match found {
                Some(i) => holds_at(self.slots@, url@, i as int),
                None => !self@.contains_key(url@),
            },
    {
        let mut i: usize = 0;
        while i < self.slots.len()
            invariant
                i <= self.slots.len(),
                forall|k: int| 0 <= k < i ==> self.slots@[k].url@ != url@,
            decreases self.slots.len() - i,
        {
            if same_text(self.slots[i].url.as_str(), url) {
                return Some(i);
            }
            i += 1;
        }
        proof {
            lemma_unheld_is_unmapped(self.slots@, url@);
        }
        None
    }

    /// Whether there is an entry for `url`.
    pub fn contains(&self, url: &str) -> (found: bool)
        ensures
            found == self@.contains_key(url@),
    {
        proof {
            use_type_invariant(self);
        }
        match self.position(url) {
            Some(i) => {
                proof {
                    lemma_slot_is_mapped(self.slots@, i as int);
                }
                true
            },
            None => false,
        }
    }

    /// The entry for `url`, if there is one.
    pub fn get(&self, url: &str) -> (found: Option<&CacheData>)
        ensures
            match found {
                Some(data) => self@.contains_key(url@) && data@ == self@[url@],
                None => !self@.contains_key(url@),
            },
    {
        proof {
            use_type_invariant(self);
        }
        match self.position(url) {
            Some(i) => {
                proof {
                    lemma_slot_is_mapped(self.slots@, i as int);
                }
                Some(&self.slots[i].data)
            },
            None => None,
        }
    }

    /// Hands out the slots, leaving the store empty until they are put back.
    fn take_slots(&mut self) -> (slots: Vec<CacheSlot>)
        ensures
            slots@ == old(self).slots@,
            distinct_urls(slots@),
            final(self).slots@ == Seq::<CacheSlot>::empty(),
    {
        proof {
            use_type_invariant(&*self);
        }
        let mut slots: Vec<CacheSlot> = Vec::new();
        std::mem::swap(&mut self.slots, &mut slots);
        slots
    }

    /// Looks `url` up at `now`. A hit answers the entry's text and records the
    /// read; a miss answers `None` and changes nothing.
    pub fn read(&mut self, url: &str, now: u64) -> (reply: Option<String>)
        ensures
            final(self)@ == after_read(old(self)@, url@, now),
            final(self).order() == old(self).order(),
            lists_each_once(final(self).order(), final(self)@),
            text_of(reply) == read_reply(old(self)@, url@),
    {
        proof {
            use_type_invariant(&*self);
            lemma_urls_list_the_map(self.slots@);
        }
        match self.position(url) {
            Some(i) => {
                let mut slots = self.take_slots();
                proof {
                    lemma_slot_is_mapped(slots@, i as int);
                }
                let ghost before = slots@;
                slots[i].data.record_access(now);
                let text = slots[i].data.get_content();
                proof {
                    lemma_replace(before, i as int, slots@[i as int]);
                    assert(slots@ =~= before.update(i as int, slots@[i as int]));
                    assert(slot_urls(slots@) =~= slot_urls(before));
                    lemma_urls_list_the_map(slots@);
                }
                self.slots = slots;
                Some(text)
            },
            None => None,
        }
    }

    /// Stores `text` under `url` at `now`: an existing entry gets the text and
    /// `now` as its last update, otherwise a new entry is created at `now`.
    pub fn write(&mut self, url: &str, text: &str, now: u64)
        ensures
            final(self)@ == after_write(old(self)@, url@, text@, now),
            final(self).order() == order_after_write(old(self)@, old(self).order(), url@),
            lists_each_once(final(self).order(), final(self)@),
    {
        proof {
            use_type_invariant(&*self);
        }
        match self.position(url) {
            Some(i) => {
                let mut slots = self.take_slots();
                proof {
                    lemma_slot_is_mapped(slots@, i as int);
                }
                let ghost before = slots@;
                slots[i].data.set_content(text, now);
                proof {
                    lemma_replace(before, i as int, slots@[i as int]);
                    assert(slots@ =~= before.update(i as int, slots@[i as int]));
                    assert(slot_urls(slots@) =~= slot_urls(before));
                    lemma_urls_list_the_map(slots@);
                }
                self.slots = slots;
            },
            None => {
                let mut slots = self.take_slots();
                let slot = CacheSlot { url: url.to_owned(), data: CacheData::new(text, now) };
                proof {
                    lemma_push(slots@, slot);
                    assert(slot_urls(slots@.push(slot)) =~= slot_urls(slots@).push(url@));
                    lemma_urls_list_the_map(slots@.push(slot));
                }
                slots.push(slot);
                self.slots = slots;
            },
        }
    }

    /// Removes every entry last read more than `limit` before `now` and
    /// returns the URLs removed, in the order in which their entries were
    /// created.
    pub fn delete_not_accessed(&mut self, now: u64, limit: u64) -> (removed: Vec<String>)
        ensures
            final(self)@ == after_eviction(old(self)@, now, limit),
            final(self).order() == order_after_eviction(old(self)@, old(self).order(), now, limit),
            lists_each_once(final(self).order(), final(self)@),
            names(removed@) == evicted(old(self)@, old(self).order(), now, limit),
    {
        let slots = self.take_slots();
        let ghost all = slots@;
        let ghost entries = slots_map(all);
        let ghost urls = slot_urls(all);
        let mut kept: Vec<CacheSlot> = Vec::new();
        let mut removed: Vec<String> = Vec::new();
        proof {
            assert(slots_map(kept@) =~= after_eviction(slots_map(all.take(0)), now, limit));
            assert(slot_urls(kept@) =~= order_after_eviction(entries, urls.take(0), now, limit));
            assert(names(removed@) =~= evicted(entries, urls.take(0), now, limit));
        }
        for slot in it: slots
            invariant
                it.seq() == all,
                entries == slots_map(all),
                urls == slot_urls(all),
                distinct_urls(all),
                distinct_urls(kept@),
                slots_map(kept@) == after_eviction(slots_map(all.take(it.index())), now, limit),
                slot_urls(kept@) == order_after_eviction(entries, urls.take(it.index()), now, limit),
                names(removed@) == evicted(entries, urls.take(it.index()), now, limit),
        {
            proof {
                lemma_eviction_step(all, it.index(), kept@, now, limit);
            }
            if is_older_than(slot.data.last_access(), now, limit) {
                proof {
                    assert(names(removed@.push(slot.url)) =~= names(removed@).push(slot.url@));
                }
                removed.push(slot.url);
            } else {
                kept.push(slot);
            }
        }
        proof {
            assert(all.take(all.len() as int) =~= all);
            assert(urls.take(all.len() as int) =~= urls);
            lemma_urls_list_the_map(kept@);
        }
        self.slots = kept;
        removed
    }

    /// How many entries there are.
    pub fn len(&self) -> (count: usize)
        ensures
            self@.dom().finite(),
            count == self@.len(),
    {
        proof {
            use_type_invariant(self);
            lemma_count(self.slots@);
        }
        self.slots.len()
    }

    /// Whether there is no entry.
    pub fn is_empty(&self) -> (empty: bool)
        ensures
            empty == (self@ == Map::<Seq<char>, EntryView>::empty()),
    {
        proof {
            use_type_invariant(self);
            if self.slots@.len() > 0 {
                lemma_slot_is_mapped(self.slots@, 0);
            } else {
                assert(self@ =~= Map::<Seq<char>, EntryView>::empty());
            }
        }
        self.slots.len() == 0
    }

    /// The entry to refresh next: of the entries whose text was last replaced
    /// more than `limit` before `now`, the one created first; `None` if there
    /// is no such entry.
    pub fn schedule_next_update(&self, now: u64, limit: u64) -> (picked: Option<String>)
        ensures
            text_of(picked) == next_update(self@, self.order(), now, limit),
    {
        proof {
            use_type_invariant(self);
            assert(self.order().skip(0) =~= self.order());
        }
        let mut i: usize = 0;
        while i < self.slots.len()
            invariant
                i <= self.slots.len(),
                distinct_urls(self.slots@),
                next_update(self@, self.order(), now, limit) == next_update(
                    self@,
                    self.order().skip(i as int),
                    now,
                    limit,
                ),
            decreases self.slots.len() - i,
        {
            proof {
                lemma_slot_is_mapped(self.slots@, i as int);
                assert(self.order().skip(i as int).first() == self.slots@[i as int].url@);
                assert(self.order().skip(i as int).drop_first() =~= self.order().skip(i as int + 1));
            }
            if is_older_than(self.slots[i].data.last_update(), now, limit) {
                return Some(self.slots[i].url.clone());
            }
            i += 1;
        }
        None
    }
}

} // verus!
