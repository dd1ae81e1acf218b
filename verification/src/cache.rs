//! The article cache and the rules of the actor that owns it.
//!
//! The actor is the only reader and writer of the store and of the marker of
//! the refresh in flight. [`CacheManager::step`] is one turn of its loop: it
//! takes what the message queue gave and the current time, changes the state,
//! and says what is to be done outside: answer a lookup, log, start a refresh,
//! sleep, or stop.

pub mod cache_data;
pub mod cache_message;
pub mod cache_store;
pub mod model;

use crate::cache::cache_message::CacheMessage;
use crate::cache::cache_message::CacheSetMessage;
use crate::cache::cache_store::CacheStore;
use crate::cache::model::after_get;
use crate::cache::model::after_maintenance;
use crate::cache::model::after_set;
use crate::cache::model::empty_state;
use crate::cache::model::evicted;
use crate::cache::model::read_reply;
use crate::cache::model::scheduled_by_maintenance;
use crate::cache::model::CacheState;
use crate::feed_handling::FetchResponse;
use crate::fluent::FluentDuration;
use crate::text::names;
use crate::text::same_text;
use crate::text::text_of;
use vstd::prelude::*;

verus! {

/// The three durations that govern the cache, in milliseconds.
pub struct CacheSettings {
    /// An entry not read for longer than this is evicted.
    pub eviction_after: u64,
    /// An entry not rewritten for longer than this is refreshed.
    pub refresh_after: u64,
    /// How long the actor sleeps when its queue is empty.
    pub poll_interval: u64,
}

impl CacheSettings {
    /// Eviction after 6 hours, refresh after 211 minutes, polling every 100
    /// milliseconds.
    pub fn reference() -> (settings: CacheSettings)
        ensures
            settings.eviction_after == 21_600_000,
            settings.refresh_after == 12_660_000,
            settings.poll_interval == 100,
    {
        CacheSettings {
            eviction_after: 6u32.hours(),
            refresh_after: 211u32.minutes(),
            poll_interval: 100u32.milli_seconds(),
        }
    }
}

/// What the actor's queue gave when it was polled.
pub enum CacheEvent<R> {
    /// A message was waiting.
    Message(CacheMessage<R>),
    /// The queue is empty but still open.
    Empty,
    /// The queue is closed: no sender is left.
    Disconnected,
}

/// What a set message did.
pub enum SetOutcome {
    /// Text was stored.
    Cached,
    /// The refresh in flight failed and its marker was cleared.
    UpdateFailed,
    /// A failure report for a URL that no refresh was in flight for.
    Ignored,
}

/// What is to be done after a turn of the actor's loop.
pub enum CacheAction<R> {
    /// Send `content` on `response_channel`, ignoring a closed channel.
    Reply { response_channel: R, content: Option<String> },
    /// Text was stored under `url`: worth a log line.
    Cached { url: String },
    /// The refresh of `url` failed: worth a log line.
    UpdateFailed { url: String },
    /// Nothing.
    Ignored,
    /// The queue was empty and maintenance ran: the URLs in `removed` were
    /// evicted, a refresh of `scheduled` is to be started if there is one, and
    /// the actor sleeps for `sleep` milliseconds.
    Idle { removed: Vec<String>, scheduled: Option<String>, sleep: u64 },
    /// The actor ends.
    Stop,
}

/// The message by which a background refresh of `url` reports back: the
/// fetched text under the URL of the response, or a failure report for `url`.
pub fn refresh_result<E>(url: String, outcome: Result<FetchResponse, E>) -> (message:
    CacheSetMessage)
    ensures
        match outcome {
            Ok(response) => message == (CacheSetMessage {
                url: response.url,
                content: Some(response.content),
            }),
            Err(_) => message == (CacheSetMessage { url: url, content: None }),
        },
{
    match outcome {
        Ok(response) => CacheSetMessage { url: response.url, content: Some(response.content) },
        Err(_) => CacheSetMessage { url: url, content: None },
    }
}

/// The cache actor's state: the store and the marker of the refresh in flight.
pub struct CacheManager {
    cache: CacheStore,
    current_update_url: Option<String>,
    settings: CacheSettings,
}

impl View for CacheManager {
    type V = CacheState;

    closed spec fn view(&self) -> CacheState {
        CacheState {
            entries: self.cache@,
            order: self.cache.order(),
            pending: text_of(self.current_update_url),
        }
    }
}

impl CacheManager {
    /// The durations that this cache goes by.
    pub closed spec fn settings(&self) -> CacheSettings {
        self.settings
    }

    /// An empty cache with no refresh in flight.
    pub fn new(settings: CacheSettings) -> (manager: CacheManager)
        ensures
            manager@ == empty_state(),
            manager@.wf(),
            manager.settings() == settings,
    {
        CacheManager { cache: CacheStore::new(), current_update_url: None, settings }
    }

    /// The store, for inspection.
    pub fn cache(&self) -> (cache: &CacheStore)
        ensures
            cache@ == self@.entries,
            cache.order() == self@.order,
    {
        &self.cache
    }

    /// Whether a refresh of `url` is in flight.
    pub fn is_updating(&self, url: &str) -> (updating: bool)
        ensures
            updating == (self@.pending == Some(url@)),
    {
        match &self.current_update_url {
            Some(pending) => same_text(pending.as_str(), url),
            None => false,
        }
    }

    /// Processes a lookup of `url` at `now`: a hit answers the text and records the
    /// read, a miss answers `None`.
    pub fn get(&mut self, url: &str, now: u64) -> (reply: Option<String>)
        ensures
            final(self)@ == after_get(old(self)@, url@, now),
            final(self)@.wf(),
            final(self).settings() == old(self).settings(),
            text_of(reply) == read_reply(old(self)@.entries, url@),
    {
        self.cache.read(url, now)
    }

    /// Processes a set message at `now`. With content, the text is stored; without,
    /// the entries stay as they are. Either way the marker is cleared if it
    /// was for the message's URL.
    pub fn set(&mut self, message: &CacheSetMessage, now: u64) -> (outcome: SetOutcome)
        ensures
            final(self)@ == after_set(old(self)@, message.url@, text_of(message.content), now),
            final(self)@.wf(),
            final(self).settings() == old(self).settings(),
            outcome == (if message.content is Some {
                SetOutcome::Cached
            } else if old(self)@.pending == Some(message.url@) {
                SetOutcome::UpdateFailed
            } else {
                SetOutcome::Ignored
            }),
    {
        self.cache.recall_consistency();
        let was_updating = self.is_updating(message.url.as_str());
        if was_updating {
            self.current_update_url = None;
        }
        match &message.content {
            Some(text) => {
                self.cache.write(message.url.as_str(), text.as_str(), now);
                SetOutcome::Cached
            },
            None => {
                if was_updating {
                    SetOutcome::UpdateFailed
                } else {
                    SetOutcome::Ignored
                }
            },
        }
    }

    /// Runs a maintenance pass at `now`: evicts, then, unless a refresh is in
    /// flight, picks the entry to refresh next and marks it. Returns the URLs
    /// evicted and the URL to refresh.
    pub fn maintain(&mut self, now: u64) -> (done: (Vec<String>, Option<String>))
        ensures
            final(self)@ == after_maintenance(
                old(self)@,
                now,
                old(self).settings().eviction_after,
                old(self).settings().refresh_after,
            ),
            final(self)@.wf(),
            final(self).settings() == old(self).settings(),
            names(done.0@) == evicted(
                old(self)@.entries,
                old(self)@.order,
                now,
                old(self).settings().eviction_after,
            ),
            text_of(done.1) == scheduled_by_maintenance(
                old(self)@,
                now,
                old(self).settings().eviction_after,
                old(self).settings().refresh_after,
            ),
    {
        let removed = self.cache.delete_not_accessed(now, self.settings.eviction_after);
        if self.current_update_url.is_none() {
            let picked = self.cache.schedule_next_update(now, self.settings.refresh_after);
            self.current_update_url = picked.clone();
            (removed, picked)
        } else {
            (removed, None)
        }
    }

    /// One turn of the actor's loop at `now`. A waiting message is processed;
    /// an empty queue gives time for maintenance and a sleep; a closed queue
    /// ends the actor.
    pub fn step<R>(&mut self, event: CacheEvent<R>, now: u64) -> (action: CacheAction<R>)
        ensures
            final(self)@.wf(),
            final(self).settings() == old(self).settings(),
            match event {
                CacheEvent::Message(CacheMessage::Get(message)) => {
                    &&& final(self)@ == after_get(old(self)@, message.url@, now)
                    &&& action matches CacheAction::Reply { response_channel, content }
                    &&& response_channel == message.response_channel
                    &&& text_of(content) == read_reply(old(self)@.entries, message.url@)
                },
                CacheEvent::Message(CacheMessage::Put(message)) => {
                    &&& final(self)@ == after_set(
                        old(self)@,
                        message.url@,
                        text_of(message.content),
                        now,
                    )
                    &&& action == (if message.content is Some {
                        CacheAction::<R>::Cached { url: message.url }
                    } else if old(self)@.pending == Some(message.url@) {
                        CacheAction::<R>::UpdateFailed { url: message.url }
                    } else {
                        CacheAction::<R>::Ignored
                    })
                },
                CacheEvent::Empty => {
                    &&& action matches CacheAction::Idle { removed, scheduled, sleep }
                    &&& final(self)@ == after_maintenance(
                        old(self)@,
                        now,
                        old(self).settings().eviction_after,
                        old(self).settings().refresh_after,
                    )
                    &&& names(removed@) == evicted(
                        old(self)@.entries,
                        old(self)@.order,
                        now,
                        old(self).settings().eviction_after,
                    )
                    &&& text_of(scheduled) == scheduled_by_maintenance(
                        old(self)@,
                        now,
                        old(self).settings().eviction_after,
                        old(self).settings().refresh_after,
                    )
                    &&& sleep == old(self).settings().poll_interval
                },
                CacheEvent::Disconnected => action is Stop && final(self)@ == old(self)@,
            },
    {
        match event {
            CacheEvent::Message(CacheMessage::Get(message)) => {
                let content = self.get(message.url.as_str(), now);
                CacheAction::Reply { response_channel: message.response_channel, content }
            },
            CacheEvent::Message(CacheMessage::Put(message)) => {
                match self.set(&message, now) {
                    SetOutcome::Cached => CacheAction::Cached { url: message.url },
                    SetOutcome::UpdateFailed => CacheAction::UpdateFailed { url: message.url },
                    SetOutcome::Ignored => CacheAction::Ignored,
                }
            },
            CacheEvent::Empty => {
                let (removed, scheduled) = self.maintain(now);
                CacheAction::Idle { removed, scheduled, sleep: self.settings.poll_interval }
            },
            CacheEvent::Disconnected => {
                self.cache.recall_consistency();
                CacheAction::Stop
            },
        }
    }
}

} // verus!
