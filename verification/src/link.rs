//! The record that every source yields and the cache stores.

use crate::text::clone_optional;
use vstd::prelude::*;

verus! {

/// Whether the calendar of `chrono` has a moment that lies `secs` seconds and
/// `nanos` nanoseconds after the start of 1970 in UTC.
pub uninterp spec fn chrono_accepts(secs: int, nanos: int) -> bool;

/// Reads the clock with `chrono::Utc::now`. The moment that comes back has
/// passed through `DateTime::from_timestamp`, so the calendar has it. The
/// call panics on a machine whose clock stands before the start of 1970.
#[verifier::external_body]
fn clock_now() -> (r: Timestamp)
    ensures
        chrono_accepts(r.secs as int, r.nanos as int),
{
    let now = chrono::Utc::now();
    Timestamp { secs: now.timestamp(), nanos: now.timestamp_subsec_nanos() }
}

/// Asks `chrono::DateTime::from_timestamp` whether it has a moment for the
/// two numbers.
#[verifier::external_body]
fn calendar_has(secs: i64, nanos: u32) -> (r: bool)
    ensures
        r == chrono_accepts(secs as int, nanos as int),
{
    chrono::DateTime::from_timestamp(secs, nanos).is_some()
}

/// A moment in UTC: whole seconds since the start of 1970, and the
/// nanoseconds that follow them.
#[derive(Debug, Clone, Copy, PartialEq, Eq, Structural)]
pub struct Timestamp {
    pub secs: i64,
    pub nanos: u32,
}

impl Timestamp {
    /// The moment as one number that grows with time.
    pub open spec fn instant(self) -> int {
        self.secs * 4_294_967_296 + self.nanos
    }

    /// Whether the calendar has this moment.
    pub open spec fn valid(self) -> bool {
        chrono_accepts(self.secs as int, self.nanos as int)
    }

    /// The current moment.
    pub fn now() -> (r: Timestamp)
        ensures
            r.valid(),
    {
        clock_now()
    }

    /// The moment `secs` whole seconds after the start of 1970, if the
    /// calendar has it.
    pub fn from_seconds(secs: i64) -> (r: Option<Timestamp>)
        ensures
            r == if chrono_accepts(secs as int, 0) {
                Some(Timestamp { secs, nanos: 0 })
            } else {
                None
            },
    {
        if calendar_has(secs, 0) {
            Some(Timestamp { secs, nanos: 0 })
        } else {
            None
        }
    }

    /// Whether the calendar has this moment.
    pub fn is_valid(&self) -> (r: bool)
        ensures
            r == self.valid(),
    {
        calendar_has(self.secs, self.nanos)
    }

    /// The whole seconds since the start of 1970.
    pub fn timestamp(&self) -> (r: i64)
        ensures
            r == self.secs,
    {
        self.secs
    }

    /// Whether this moment lies after `other`.
    pub fn is_after(&self, other: &Timestamp) -> (r: bool)
        ensures
            r == (self.instant() > other.instant()),
    {
        self.secs > other.secs || (self.secs == other.secs && self.nanos > other.nanos)
    }
}

impl Default for Timestamp {
    /// The start of 1970.
    fn default() -> (r: Timestamp)
        ensures
            r == (Timestamp { secs: 0, nanos: 0 }),
    {
        Timestamp { secs: 0, nanos: 0 }
    }
}

/// Link represents the unique combination of a URL and a title.
#[derive(Debug)]
pub struct Link {
    /// Globally unique identifier of the link.
    pub guid: String,
    /// The fully-qualified URL of the link. The cache keeps one link per URL.
    pub url: String,
    /// The name displayed when linking to this URL.
    pub title: String,
    /// Optional description of the link.
    pub subtitle: Option<String>,
    /// The place where the link was discovered.
    pub source: Option<String>,
    /// When the link was made or visited.
    pub timestamp: Timestamp,
    /// The relevance of the link in the results of a search. It is not stored:
    /// a link that goes into the cache needs none.
    pub score: Option<i64>,
}

pub struct LinkView {
    pub guid: Seq<char>,
    pub url: Seq<char>,
    pub title: Seq<char>,
    pub subtitle: Option<Seq<char>>,
    pub source: Option<Seq<char>>,
    pub timestamp: Timestamp,
    pub score: Option<i64>,
}

impl View for Link {
    type V = LinkView;

    open spec fn view(&self) -> LinkView {
        LinkView {
            guid: self.guid@,
            url: self.url@,
            title: self.title@,
            subtitle: self.subtitle.deep_view(),
            source: self.source.deep_view(),
            timestamp: self.timestamp,
            score: self.score,
        }
    }
}

/// The values of a list of links.
pub open spec fn link_views(links: Seq<Link>) -> Seq<LinkView> {
    Seq::new(links.len(), |i: int| links[i]@)
}

impl Clone for Link {
    fn clone(&self) -> (r: Self)
        ensures
            r@ == self@,
    {
        Link {
            guid: self.guid.clone(),
            url: self.url.clone(),
            title: self.title.clone(),
            subtitle: clone_optional(&self.subtitle),
            source: clone_optional(&self.source),
            timestamp: self.timestamp,
            score: self.score,
        }
    }
}

impl Default for Link {
    /// A link of empty texts, made at the start of 1970.
    fn default() -> (r: Link)
        ensures
            r@ == (LinkView {
                guid: Seq::empty(),
                url: Seq::empty(),
                title: Seq::empty(),
                subtitle: None,
                source: None,
                timestamp: Timestamp { secs: 0, nanos: 0 },
                score: None,
            }),
    {
        Link {
            guid: String::new(),
            url: String::new(),
            title: String::new(),
            subtitle: None,
            source: None,
            timestamp: Timestamp { secs: 0, nanos: 0 },
            score: None,
        }
    }
}

impl Link {
    /// A link made now, without subtitle, source or score.
    pub fn new(guid: String, url: String, title: String) -> (r: Link)
        ensures
            r@.guid == guid@,
            r@.url == url@,
            r@.title == title@,
            r@.subtitle is None,
            r@.source is None,
            r@.score is None,
            r@.timestamp.valid(),
    {
        let timestamp = Timestamp::now();
        Link { guid, url, title, subtitle: None, source: None, timestamp, score: None }
    }

    /// The same link with `subtitle` as its subtitle.
    pub fn with_subtitle(self, subtitle: String) -> (r: Link)
        ensures
            r@ == (LinkView { subtitle: Some(subtitle@), ..self@ }),
    {
        let mut link = self;
        link.subtitle = Some(subtitle);
        link
    }

    /// The same link made `timestamp_seconds` whole seconds after the start
    /// of 1970, a moment that the calendar must have.
    pub fn with_timestamp_seconds(self, timestamp_seconds: i64) -> (r: Link)
        requires
            chrono_accepts(timestamp_seconds as int, 0),
        ensures
            r@ == (LinkView {
                timestamp: Timestamp { secs: timestamp_seconds, nanos: 0 },
                ..self@
            }),
    {
        let mut link = self;
        link.timestamp = Timestamp { secs: timestamp_seconds, nanos: 0 };
        link
    }

    /// The same link made `timestamp_seconds` whole seconds after the start
    /// of 1970; where the calendar has no such moment, the link as it was.
    pub fn try_with_timestamp_seconds(self, timestamp_seconds: i64) -> (r: Result<Link, Link>)
        ensures
            match r {
                Ok(link) => chrono_accepts(timestamp_seconds as int, 0) && link@ == (LinkView {
                    timestamp: Timestamp { secs: timestamp_seconds, nanos: 0 },
                    ..self@
                }),
                Err(link) => !chrono_accepts(timestamp_seconds as int, 0) && link == self,
            },
    {
        if calendar_has(timestamp_seconds, 0) {
            Ok(self.with_timestamp_seconds(timestamp_seconds))
        } else {
            Err(self)
        }
    }
}

} // verus!
