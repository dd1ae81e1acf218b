//! One cached article: its text in storage form, and when it was created,
//! last read and last rewritten.

use crate::codec::decode;
use crate::codec::decoded_text;
use crate::codec::encode;
use crate::codec::stored_form;
use vstd::prelude::*;

verus! {

/// What a cache entry stands for: the text it decodes to and its three
/// timestamps, in milliseconds since the Unix epoch.
pub struct EntryView {
    pub text: Seq<char>,
    pub creation: u64,
    pub last_access: u64,
    pub last_update: u64,
}

/// A cache entry. The stored bytes always decode to the text last set;
/// `last_update` moves only when the text is replaced, `last_access` only when
/// the owner of the store records a read.
pub struct CacheData {
    content: Vec<u8>,
    compressed: bool,
    pub creation: u64,
    pub last_access: u64,
    pub last_update: u64,
}

impl View for CacheData {
    type V = EntryView;

    closed spec fn view(&self) -> EntryView {
        EntryView {
            text: decoded_text(self.content@, self.compressed),
            creation: self.creation,
            last_access: self.last_access,
            last_update: self.last_update,
        }
    }
}

impl CacheData {
    /// The bytes held and whether they are compressed.
    pub closed spec fn stored(&self) -> (Seq<u8>, bool) {
        (self.content@, self.compressed)
    }

    /// The bytes held always decode to the text of the entry.
    pub proof fn lemma_stored_bytes_decode_to_text(&self)
        ensures
            self@.text == decoded_text(self.stored().0, self.stored().1),
    {
    }

    /// An entry for `content`, created, read and written at `now`.
    pub fn new(content: &str, now: u64) -> (data: CacheData)
        ensures
            data@ == (EntryView { text: content@, creation: now, last_access: now, last_update: now }),
            data.stored() == stored_form(content@),
    {
        let (bytes, compressed) = encode(content);
        CacheData { content: bytes, compressed, creation: now, last_access: now, last_update: now }
    }

    /// When the entry was created.
    pub fn creation(&self) -> (at: u64)
        ensures
            at == self@.creation,
    {
        self.creation
    }

    /// When the entry was last read.
    pub fn last_access(&self) -> (at: u64)
        ensures
            at == self@.last_access,
    {
        self.last_access
    }

    /// When the text of the entry was last replaced.
    pub fn last_update(&self) -> (at: u64)
        ensures
            at == self@.last_update,
    {
        self.last_update
    }

    /// Records a read at `now`. Nothing else changes.
    pub fn record_access(&mut self, now: u64)
        ensures
            final(self)@ == (EntryView { last_access: now, ..old(self)@ }),
            final(self).stored() == old(self).stored(),
    {
        self.last_access = now;
    }

    /// The text of the entry.
    pub fn get_content(&self) -> (text: String)
        ensures
            text@ == self@.text,
    {
        decode(self.content.as_slice(), self.compressed)
    }

    /// Replaces the text by `content` and records `now` as the time of the
    /// update. Creation and last access stay as they were.
    pub fn set_content(&mut self, content: &str, now: u64)
        ensures
            final(self)@ == (EntryView { text: content@, last_update: now, ..old(self)@ }),
            final(self).stored() == stored_form(content@),
    {
        let (bytes, compressed) = encode(content);
        self.content = bytes;
        self.compressed = compressed;
        self.last_update = now;
    }
}

} // verus!
