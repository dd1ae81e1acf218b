//! Enrichment of a feed: how a parsed feed becomes a channel, which articles
//! are looked up, what a cache hit or miss leads to, and how the fetched texts
//! go back into the channel.

use crate::cache::cache_message::CacheSetMessage;
use crate::error::AppError;
use crate::text::names;
use crate::text::same_text;
use crate::text::text_of;
use vstd::prelude::*;
use vstd::string::StringExecFns;

verus! {

/// The text extracted for the article at `url`.
pub struct FetchResponse {
    pub url: String,
    pub content: String,
}

/// An entry of a parsed feed, reduced to what the conversion reads: the hrefs
/// of its links and the e-mail addresses of its authors in document order, its
/// dates as RFC 3339 text, and, if it has a content element, that element's
/// body.
pub struct ParsedEntry {
    pub title: Option<String>,
    pub links: Vec<String>,
    pub summary: Option<String>,
    pub author_emails: Vec<Option<String>>,
    pub published: Option<String>,
    pub updated: Option<String>,
    pub content: Option<Option<String>>,
}

/// A parsed feed, reduced to what the conversion reads.
pub struct ParsedFeed {
    pub title: Option<String>,
    pub links: Vec<String>,
    pub description: Option<String>,
    pub entries: Vec<ParsedEntry>,
}

/// An item of the channel that is served. Enrichment overwrites `content`.
pub struct FeedItem {
    pub title: Option<String>,
    pub link: Option<String>,
    pub description: Option<String>,
    pub author: Option<String>,
    pub pub_date: Option<String>,
    pub content: Option<String>,
}

/// The channel that is served.
pub struct Channel {
    pub title: String,
    pub link: String,
    pub description: String,
    pub items: Vec<FeedItem>,
}

/// A [`ParsedEntry`] as mathematics.
pub struct ParsedEntryView {
    pub title: Option<Seq<char>>,
    pub links: Seq<Seq<char>>,
    pub summary: Option<Seq<char>>,
    pub author_emails: Seq<Option<Seq<char>>>,
    pub published: Option<Seq<char>>,
    pub updated: Option<Seq<char>>,
    pub content: Option<Option<Seq<char>>>,
}

/// A [`ParsedFeed`] as mathematics.
pub struct ParsedFeedView {
    pub title: Option<Seq<char>>,
    pub links: Seq<Seq<char>>,
    pub description: Option<Seq<char>>,
    pub entries: Seq<ParsedEntryView>,
}

/// A [`FeedItem`] as mathematics.
pub struct ItemView {
    pub title: Option<Seq<char>>,
    pub link: Option<Seq<char>>,
    pub description: Option<Seq<char>>,
    pub author: Option<Seq<char>>,
    pub pub_date: Option<Seq<char>>,
    pub content: Option<Seq<char>>,
}

/// A [`Channel`] as mathematics.
pub struct ChannelView {
    pub title: Seq<char>,
    pub link: Seq<char>,
    pub description: Seq<char>,
    pub items: Seq<ItemView>,
}

impl View for ParsedEntry {
    type V = ParsedEntryView;

    open spec fn view(&self) -> ParsedEntryView {
        ParsedEntryView {
            title: text_of(self.title),
            links: names(self.links@),
            summary: text_of(self.summary),
            author_emails: self.author_emails@.map_values(|email: Option<String>| text_of(email)),
            published: text_of(self.published),
            updated: text_of(self.updated),
            content: match self.content {
                Some(body) => Some(text_of(body)),
                None => None,
            },
        }
    }
}

impl View for ParsedFeed {
    type V = ParsedFeedView;

    open spec fn view(&self) -> ParsedFeedView {
        ParsedFeedView {
            title: text_of(self.title),
            links: names(self.links@),
            description: text_of(self.description),
            entries: self.entries@.map_values(|entry: ParsedEntry| entry@),
        }
    }
}

impl View for FeedItem {
    type V = ItemView;

    open spec fn view(&self) -> ItemView {
        ItemView {
            title: text_of(self.title),
            link: text_of(self.link),
            description: text_of(self.description),
            author: text_of(self.author),
            pub_date: text_of(self.pub_date),
            content: text_of(self.content),
        }
    }
}

/// The views of a list of items.
pub open spec fn item_views(items: Seq<FeedItem>) -> Seq<ItemView> {
    items.map_values(|item: FeedItem| item@)
}

impl View for Channel {
    type V = ChannelView;

    open spec fn view(&self) -> ChannelView {
        ChannelView {
            title: self.title@,
            link: self.link@,
            description: self.description@,
            items: item_views(self.items@),
        }
    }
}

/// The text, or the empty text where there is none.
pub open spec fn text_or_empty(value: Option<Seq<char>>) -> Seq<char> {
    match value {
        Some(text) => text,
        None => Seq::empty(),
    }
}

/// The first text of a list, or the empty text where the list is empty.
pub open spec fn first_or_empty(list: Seq<Seq<char>>) -> Seq<char> {
    if list.len() > 0 {
        list[0]
    } else {
        Seq::empty()
    }
}

/// The channel item that a parsed entry becomes. Title, link and description
/// are always present, empty where the entry has none. The link is the first
/// of the entry's links, the author the e-mail address of the first author.
/// The date is that of the last update, or else that of publication. Content
/// is carried over only where the entry has a content element.
pub open spec fn converted_item(entry: ParsedEntryView) -> ItemView {
    ItemView {
        title: Some(text_or_empty(entry.title)),
        link: Some(first_or_empty(entry.links)),
        description: Some(text_or_empty(entry.summary)),
        author: if entry.author_emails.len() > 0 {
            entry.author_emails[0]
        } else {
            None
        },
        pub_date: if entry.updated is Some {
            entry.updated
        } else {
            entry.published
        },
        content: match entry.content {
            Some(body) => Some(text_or_empty(body)),
            None => None,
        },
    }
}

/// The channel that a parsed feed becomes: its title, first link and
/// description, empty where the feed has none, and one item per entry, in
/// order.
pub open spec fn converted_channel(feed: ParsedFeedView) -> ChannelView {
    ChannelView {
        title: text_or_empty(feed.title),
        link: first_or_empty(feed.links),
        description: text_or_empty(feed.description),
        items: feed.entries.map_values(|entry: ParsedEntryView| converted_item(entry)),
    }
}

/// The string, or an empty one.
fn string_or_empty(value: Option<String>) -> (text: String)
    ensures
        text@ == text_or_empty(text_of(value)),
{
    match value {
        Some(text) => text,
        None => String::new(),
    }
}

/// A copy of the first string of a list, or an empty string.
fn first_string_or_empty(list: &Vec<String>) -> (text: String)
    ensures
        text@ == first_or_empty(names(list@)),
{
    if list.len() > 0 {
        list[0].clone()
    } else {
        String::new()
    }
}

/// Converts one entry of a parsed feed into a channel item.
pub fn convert_entry_to_item(entry: ParsedEntry) -> (item: FeedItem)
    ensures
        item@ == converted_item(entry@),
{
    let link = first_string_or_empty(&entry.links);
    let author = if entry.author_emails.len() > 0 {
        entry.author_emails[0].clone()
    } else {
        None
    };
    let pub_date = if entry.updated.is_some() {
        entry.updated
    } else {
        entry.published
    };
    let content = match entry.content {
        Some(body) => Some(string_or_empty(body)),
        None => None,
    };
    FeedItem {
        title: Some(string_or_empty(entry.title)),
        link: Some(link),
        description: Some(string_or_empty(entry.summary)),
        author,
        pub_date,
        content,
    }
}

/// Converts a parsed feed into the channel that is served.
pub fn convert_feed_to_channel(feed: ParsedFeed) -> (channel: Channel)
    ensures
        channel@ == converted_channel(feed@),
{
    let title = string_or_empty(feed.title);
    let link = first_string_or_empty(&feed.links);
    let description = string_or_empty(feed.description);
    let ghost entries = feed.entries@;
    let mut items: Vec<FeedItem> = Vec::new();
    for entry in it: feed.entries
        invariant
            it.seq() == entries,
            items@.len() == it.index(),
            forall|k: int| 0 <= k < items@.len() ==> items@[k]@ == converted_item(entries[k]@),
    {
        let item = convert_entry_to_item(entry);
        items.push(item);
    }
    let channel = Channel { title, link, description, items };
    proof {
        assert(channel@.items =~= converted_channel(feed@).items);
    }
    channel
}

/// Whether an article is looked up for the item: it has a link, and the link
/// is not empty.
pub open spec fn wants_article(item: ItemView) -> bool {
    item.link matches Some(link) && link.len() > 0
}

/// The links to look up for a list of items: the link of every item that has
/// a non-empty one, in item order.
pub open spec fn selected_links(items: Seq<ItemView>) -> Seq<Seq<char>>
    decreases items.len(),
{
    if items.len() == 0 {
        Seq::empty()
    } else if wants_article(items.last()) {
        selected_links(items.drop_last()).push(items.last().link->0)
    } else {
        selected_links(items.drop_last())
    }
}

/// The links of the channel's items for which an article is looked up.
pub fn links_to_fetch(channel: &Channel) -> (links: Vec<String>)
    ensures
        names(links@) == selected_links(channel@.items),
{
    let ghost items = channel@.items;
    let mut links: Vec<String> = Vec::new();
    let mut i: usize = 0;
    while i < channel.items.len()
        invariant
            i <= channel.items.len(),
            items == channel@.items,
            names(links@) == selected_links(items.take(i as int)),
        decreases channel.items.len() - i,
    {
        proof {
            let seen = items.take(i as int + 1);
            assert(seen.drop_last() =~= items.take(i as int));
            assert(seen.last() == channel.items@[i as int]@);
        }
        match &channel.items[i].link {
            Some(link) => {
                if !link.as_str().is_empty() {
                    proof {
                        assert(names(links@.push(*link)) =~= names(links@).push(link@));
                    }
                    links.push(link.clone());
                }
            },
            None => {},
        }
        i += 1;
    }
    proof {
        assert(items.take(i as int) =~= items);
    }
    links
}

/// What follows the cache's answer to a lookup.
pub enum CacheOrFetch {
    /// The cache had the text: this is the result, and nothing is fetched.
    Cached(FetchResponse),
    /// The cache had nothing: the article at `url` is to be fetched.
    Fetch { url: String },
}

/// Decides between the cached text and a fetch. `cached` is what the cache
/// answered for `url`; an answer that never came counts as `None`.
pub fn fetch_html_or_use_cache(url: String, cached: Option<String>) -> (next: CacheOrFetch)
    ensures
        next == (match cached {
            Some(html) => CacheOrFetch::Cached(FetchResponse { url: url, content: html }),
            None => CacheOrFetch::Fetch { url: url },
        }),
{
    match cached {
        Some(html) => CacheOrFetch::Cached(FetchResponse { url, content: html }),
        None => CacheOrFetch::Fetch { url },
    }
}

/// How an attempt to scrape an article ended.
pub enum Scraped {
    /// The scraper failed; its message.
    Failed(String),
    /// The scraper returned an article, with or without extracted HTML.
    Article(Option<String>),
}

/// The words reported where an article came without extracted HTML.
pub open spec fn missing_html() -> Seq<char> {
    "missing scraped html response"@
}

/// The result of fetching `url`, given how the scrape ended: the extracted
/// HTML, or the failure that stands for a failed scrape or for an article
/// without HTML.
pub fn fetch_html(url: String, scraped: Scraped) -> (result: Result<FetchResponse, AppError>)
    ensures
        match scraped {
            Scraped::Failed(cause) => result == Err::<FetchResponse, AppError>(
                AppError::ScrapeError(cause),
            ),
            Scraped::Article(Some(html)) => result == Ok::<FetchResponse, AppError>(
                FetchResponse { url: url, content: html },
            ),
            Scraped::Article(None) => result matches Err(AppError::ScrapeError(cause))
                && cause@ == missing_html(),
        },
{
    match scraped {
        Scraped::Failed(cause) => Err(AppError::ScrapeError(cause)),
        Scraped::Article(Some(html)) => Ok(FetchResponse { url, content: html }),
        Scraped::Article(None) => Err(
            AppError::ScrapeError(String::from_str("missing scraped html response")),
        ),
    }
}

/// The message that tells the cache of a read-through fetch: the fetched text
/// under its URL after a success, nothing after a failure.
pub fn cache_update_after_fetch(outcome: &Result<FetchResponse, AppError>) -> (message: Option<
    CacheSetMessage,
>)
    ensures
        match outcome {
            Ok(response) => message == Some(
                CacheSetMessage { url: response.url, content: Some(response.content) },
            ),
            Err(_) => message is None,
        },
{
    match outcome {
        Ok(response) => Some(
            CacheSetMessage { url: response.url.clone(), content: Some(response.content.clone()) },
        ),
        Err(_) => None,
    }
}

/// Whether item `i` is the first whose link is `url`.
pub open spec fn is_first_with_link(items: Seq<ItemView>, url: Seq<char>, i: int) -> bool {
    &&& 0 <= i < items.len()
    &&& items[i].link == Some(url)
    &&& forall|j: int| 0 <= j < i ==> items[j].link != Some(url)
}

/// The items after the article text for `url` arrived: the first item whose
/// link is `url` has the text as its content; without such an item nothing
/// changes.
pub open spec fn with_article(items: Seq<ItemView>, url: Seq<char>, text: Seq<char>) -> Seq<
    ItemView,
> {
    if exists|i: int| is_first_with_link(items, url, i) {
        let i = choose|i: int| is_first_with_link(items, url, i);
        items.update(i, ItemView { content: Some(text), ..items[i] })
    } else {
        items
    }
}

/// What an outcome means for the merge: URL and text of a success, `None` for
/// a failure.
pub open spec fn article_of(outcome: Result<FetchResponse, AppError>) -> Option<
    (Seq<char>, Seq<char>),
> {
    match outcome {
        Ok(response) => Some((response.url@, response.content@)),
        Err(_) => None,
    }
}

/// The items after the outcomes were merged one after the other: each success
/// goes to the first item with its link, each failure leaves the items alone.
pub open spec fn merged(items: Seq<ItemView>, articles: Seq<Option<(Seq<char>, Seq<char>)>>) -> Seq<
    ItemView,
>
    decreases articles.len(),
{
    if articles.len() == 0 {
        items
    } else {
        match articles.last() {
            Some((url, text)) => with_article(merged(items, articles.drop_last()), url, text),
            None => merged(items, articles.drop_last()),
        }
    }
}

/// An article changes at most the content of one item: the number of items
/// and everything else about each item stay.
pub proof fn lemma_article_touches_only_content(
    items: Seq<ItemView>,
    url: Seq<char>,
    text: Seq<char>,
)
    ensures
        with_article(items, url, text).len() == items.len(),
        forall|i: int|
            0 <= i < items.len() ==> #[trigger] with_article(items, url, text)[i] == (ItemView {
                content: with_article(items, url, text)[i].content,
                ..items[i]
            }),
        forall|i: int|
            0 <= i < items.len() && items[i].link != Some(url) ==> #[trigger] with_article(
                items,
                url,
                text,
            )[i] == items[i],
{
}

/// Enrichment changes nothing but content: after any outcomes were merged
/// there are as many items as before, and each differs from what it was at
/// most in its content.
pub proof fn lemma_merge_touches_only_content(
    items: Seq<ItemView>,
    articles: Seq<Option<(Seq<char>, Seq<char>)>>,
)
    ensures
        merged(items, articles).len() == items.len(),
        forall|i: int|
            0 <= i < items.len() ==> #[trigger] merged(items, articles)[i] == (ItemView {
                content: merged(items, articles)[i].content,
                ..items[i]
            }),
    decreases articles.len(),
{
    if articles.len() > 0 {
        lemma_merge_touches_only_content(items, articles.drop_last());
        match articles.last() {
            Some((url, text)) => {
                lemma_article_touches_only_content(
                    merged(items, articles.drop_last()),
                    url,
                    text,
                );
            },
            None => {},
        }
    }
}

/// An item keeps its content unless a successful outcome carries its link:
/// failures, and successes for other links, leave it as it was.
pub proof fn lemma_unmatched_item_is_untouched(
    items: Seq<ItemView>,
    articles: Seq<Option<(Seq<char>, Seq<char>)>>,
    i: int,
)
    requires
        0 <= i < items.len(),
        forall|k: int|
            0 <= k < articles.len() ==> (#[trigger] articles[k] matches Some((url, _))
                ==> items[i].link != Some(url)),
    ensures
        merged(items, articles)[i] == items[i],
    decreases articles.len(),
{
    if articles.len() > 0 {
        let front = articles.drop_last();
        assert forall|k: int| 0 <= k < front.len() implies (#[trigger] front[k] matches Some(
            (url, _),
        ) ==> items[i].link != Some(url)) by {
            assert(front[k] == articles[k]);
        }
        lemma_unmatched_item_is_untouched(items, front, i);
        lemma_merge_touches_only_content(items, front);
        match articles.last() {
            Some((url, text)) => {
                assert(articles[articles.len() - 1] == articles.last());
                lemma_article_touches_only_content(merged(items, front), url, text);
            },
            None => {},
        }
    }
}

impl Channel {
    /// Puts the article text of `response` into the first item whose link is
    /// the response's URL. Says whether there was such an item.
    pub fn set_article(&mut self, response: &FetchResponse) -> (found: bool)
        ensures
            final(self)@ == (ChannelView {
                items: with_article(old(self)@.items, response.url@, response.content@),
                ..old(self)@
            }),
            found == exists|i: int| is_first_with_link(old(self)@.items, response.url@, i),
    {
        let ghost items = self@.items;
        let mut i: usize = 0;
        while i < self.items.len()
            invariant
                i <= self.items.len(),
                *self == *old(self),
                items == self@.items,
                forall|j: int| 0 <= j < i ==> items[j].link != Some(response.url@),
            decreases self.items.len() - i,
        {
            let hit = match &self.items[i].link {
                Some(link) => same_text(link.as_str(), response.url.as_str()),
                None => false,
            };
            if hit {
                proof {
                    assert(is_first_with_link(items, response.url@, i as int));
                    let k = choose|k: int| is_first_with_link(items, response.url@, k);
                    assert(k == i);
                }
                self.items[i].content = Some(response.content.clone());
                proof {
                    assert(self@.items =~= with_article(items, response.url@, response.content@));
                }
                return true;
            }
            i += 1;
        }
        false
    }

    /// Merges the outcomes of the lookups into the channel, in the order
    /// given: each success goes to the first item with its link, each failure
    /// leaves the channel alone.
    pub fn merge_outcomes(&mut self, outcomes: &Vec<Result<FetchResponse, AppError>>)
        ensures
            final(self)@ == (ChannelView {
                items: merged(
                    old(self)@.items,
                    outcomes@.map_values(|outcome: Result<FetchResponse, AppError>| article_of(outcome)),
                ),
                ..old(self)@
            }),
    {
        let ghost articles = outcomes@.map_values(
            |outcome: Result<FetchResponse, AppError>| article_of(outcome),
        );
        let mut k: usize = 0;
        while k < outcomes.len()
            invariant
                k <= outcomes.len(),
                articles == outcomes@.map_values(
                    |outcome: Result<FetchResponse, AppError>| article_of(outcome),
                ),
                self@ == (ChannelView {
                    items: merged(old(self)@.items, articles.take(k as int)),
                    ..old(self)@
                }),
            decreases outcomes.len() - k,
        {
            proof {
                let seen = articles.take(k as int + 1);
                assert(seen.drop_last() =~= articles.take(k as int));
                assert(seen.last() == article_of(outcomes@[k as int]));
            }
            match &outcomes[k] {
                Ok(response) => {
                    self.set_article(response);
                },
                Err(_) => {},
            }
            k += 1;
        }
        proof {
            assert(articles.take(k as int) =~= articles);
        }
    }
}

} // verus!
