//! The cache: a store of links in one SQLite file, written link by link and
//! searched by title and subtitle.

use crate::cache_builder::CacheBuilder;
use crate::error::Error;
use crate::link::{link_views, Link, LinkView};
use crate::search::{latest, latest_links, lemma_latest, lemma_ranked, rank_links, ranked, terms_of};
use crate::sqlite::{execute_with_link, execute_with_text, query_links};
use rusqlite::Connection;
use vstd::prelude::*;

verus! {

/// How many links a search for nothing brings back at most.
pub const LATEST_LIMIT: u32 = 50;

/// Writes a link over whatever is stored under its URL.
pub const UPSERT_LINK: &'static str =
    "INSERT OR REPLACE INTO links (guid, url, title, subtitle, source, timestamp)
     VALUES (?1, ?2, ?3, ?4, ?5, ?6)";

/// Removes what is stored under a URL.
pub const DELETE_LINK: &'static str = "DELETE FROM links WHERE url = ?1";

/// Reads links, latest first, up to a limit; a negative limit is none.
pub const SELECT_LATEST: &'static str =
    "SELECT guid, url, title, subtitle, source, timestamp
     FROM links ORDER BY timestamp DESC LIMIT ?1";

/// The limit that asks for every row.
pub const NO_LIMIT: i64 = -1;

/// What a search gives for the rows that the store handed over: for the empty
/// query the latest of them, latest first and without scores; for any other
/// query those that answer it, with their scores, best first.
pub open spec fn answer(query: Seq<char>, rows: Seq<LinkView>) -> Seq<LinkView> {
    if query.len() == 0 {
        latest(rows, LATEST_LIMIT as nat)
    } else {
        ranked(terms_of(query), rows)
    }
}

/// Whether no link is later than a link before it.
pub open spec fn latest_first(links: Seq<LinkView>) -> bool {
    forall|i: int, j: int|
        0 <= i < j < links.len() ==> links[i].timestamp.instant() >= links[j].timestamp.instant()
}

/// Whether every link has a score and no link has a higher score than a link
/// before it.
pub open spec fn best_first(links: Seq<LinkView>) -> bool {
    &&& forall|i: int| 0 <= i < links.len() ==> (#[trigger] links[i]).score is Some
    &&& forall|i: int, j: int|
        0 <= i < j < links.len() ==> links[i].score->0 >= links[j].score->0
}

/// Whatever rows the store hands over, the answer to the empty query is at
/// most `LATEST_LIMIT` links, latest first, none with a score; the answer to
/// any other query is ordered by score, best first.
pub proof fn lemma_answer(query: Seq<char>, rows: Seq<LinkView>)
    ensures
        answer(query, rows).len() <= rows.len(),
        query.len() == 0 ==> answer(query, rows).len() <= LATEST_LIMIT && latest_first(
            answer(query, rows),
        ) && forall|i: int|
            0 <= i < answer(query, rows).len() ==> (#[trigger] answer(query, rows)[i]).score
                is None,
        query.len() > 0 ==> best_first(answer(query, rows)),
{
    if query.len() == 0 {
        lemma_latest(rows, LATEST_LIMIT as nat);
    } else {
        lemma_ranked(terms_of(query), rows);
    }
}

/// A search brings only links that the store handed over: each link of the
/// answer is one of the rows, but for its score.
pub proof fn lemma_answer_comes_from_rows(query: Seq<char>, rows: Seq<LinkView>, i: int)
    requires
        0 <= i < answer(query, rows).len(),
    ensures
        exists|k: int|
            0 <= k < rows.len() && answer(query, rows)[i] == (LinkView {
                score: answer(query, rows)[i].score,
                ..#[trigger] rows[k]
            }),
{
    if query.len() == 0 {
        crate::search::lemma_latest_comes_from_links(rows, LATEST_LIMIT as nat, i);
        let k = choose|k: int|
            0 <= k < rows.len() && latest(rows, LATEST_LIMIT as nat)[i] == (LinkView {
                score: None,
                ..#[trigger] rows[k]
            });
        assert(answer(query, rows)[i] == (LinkView {
            score: answer(query, rows)[i].score,
            ..rows[k]
        }));
    } else {
        crate::search::lemma_ranked_comes_from_links(terms_of(query), rows, i);
    }
}

/// A URL under which the store holds nothing is the URL of no link that a
/// search brings: what was removed is not found again.
pub proof fn lemma_absent_url_is_not_found(query: Seq<char>, rows: Seq<LinkView>, url: Seq<char>)
    requires
        forall|k: int| 0 <= k < rows.len() ==> (#[trigger] rows[k]).url != url,
    ensures
        forall|i: int|
            0 <= i < answer(query, rows).len() ==> (#[trigger] answer(query, rows)[i]).url != url,
{
    assert forall|i: int| 0 <= i < answer(query, rows).len() implies (#[trigger] answer(
        query,
        rows,
    )[i]).url != url by {
        lemma_answer_comes_from_rows(query, rows, i);
    }
}

/// A row in which every word of the query is found is in the answer, with
/// its score: what was stored is found again.
pub proof fn lemma_stored_match_is_found(query: Seq<char>, rows: Seq<LinkView>, k: int)
    requires
        query.len() > 0,
        0 <= k < rows.len(),
        crate::search::link_score(terms_of(query), rows[k]) is Some,
    ensures
        answer(query, rows).contains(
            LinkView { score: crate::search::link_score(terms_of(query), rows[k]), ..rows[k] },
        ),
{
    crate::search::lemma_ranked_misses_none(terms_of(query), rows, k);
}

/// How many rows a search asks the store for: `LATEST_LIMIT` for the empty
/// query, which wants the latest links only, and every row for any other.
pub fn row_limit(query: &str) -> (r: i64)
    ensures
        r == if query@.len() == 0 {
            LATEST_LIMIT as i64
        } else {
            NO_LIMIT
        },
{
    if query.is_empty() {
        LATEST_LIMIT as i64
    } else {
        NO_LIMIT
    }
}

/// Answers `query` from `rows`.
pub fn answer_query(query: &str, rows: &Vec<Link>) -> (r: Vec<Link>)
    ensures
        link_views(r@) == answer(query@, link_views(rows@)),
{
    if query.is_empty() {
        latest_links(rows, LATEST_LIMIT as usize)
    } else {
        rank_links(query, rows)
    }
}

/// A store of links in one SQLite file.
#[derive(Debug)]
pub struct Cache {
    /// The directory that holds the file.
    pub data_dir: String,
    pub(crate) conn: Connection,
}

impl Cache {
    /// The directory that holds the file.
    pub closed spec fn directory(&self) -> Seq<char> {
        self.data_dir@
    }

    /// The directory that holds the file.
    pub fn data_dir(&self) -> (r: &String)
        ensures
            r@ == self.directory(),
    {
        &self.data_dir
    }

    /// The cache that keeps its file in `data_dir` and reaches it through
    /// `conn`.
    pub(crate) fn open(data_dir: String, conn: Connection) -> (r: Cache)
        ensures
            r.directory() == data_dir@,
    {
        Cache { data_dir, conn }
    }

    /// Opens the cache in the default data directory. To choose another
    /// directory, use `builder`.
    pub fn new() -> (r: Result<Self, Error>)
        ensures
            match r {
                Ok(cache) => exists|home: Option<Seq<char>>|
                    cache.directory() == crate::cache_builder::default_directory(home),
                Err(e) => e is Rusqlite || e is Migration,
            },
    {
        Self::builder().build()
    }

    /// A builder, with which the data directory can be chosen.
    pub fn builder() -> (r: CacheBuilder)
        ensures
            r.chosen_dir() is None,
    {
        CacheBuilder::new()
    }

    /// Stores a link under its URL in place of whatever was stored under
    /// that URL; the score of the link is not stored. A link whose moment the
    /// calendar does not have is refused with `Error::Parse` before the store
    /// is touched; a failure of the store comes back as `Error::Rusqlite`.
    pub fn add(&mut self, link: Link) -> (r: Result<(), Error>)
        ensures
            final(self).directory() == old(self).directory(),
            !link.timestamp.valid() ==> r matches Err(Error::Parse(_)),
            link.timestamp.valid() ==> r is Ok || r matches Err(Error::Rusqlite(_)),
    {
        if !link.timestamp.is_valid() {
            return Err(Error::Parse("the moment of the link is out of range".to_string()));
        }
        match execute_with_link(&self.conn, UPSERT_LINK, &link) {
            Ok(()) => Ok(()),
            Err(e) => Err(Error::Rusqlite(e)),
        }
    }

    /// Stores `links` one after the other and stops at the first that is
    /// refused. No link is no work and succeeds. Where a link has a moment
    /// that the calendar does not have, the answer is an error, and
    /// `Error::Parse` comes for no other reason; a failure of the store comes
    /// back as `Error::Rusqlite`.
    pub fn add_all(&mut self, links: Vec<Link>) -> (r: Result<(), Error>)
        ensures
            final(self).directory() == old(self).directory(),
            links@.len() == 0 ==> r is Ok,
            r matches Err(e) ==> e is Parse || e is Rusqlite,
            (exists|i: int| 0 <= i < links@.len() && !(#[trigger] links@[i]).timestamp.valid())
                ==> r is Err,
            r matches Err(Error::Parse(_)) ==> exists|i: int|
                0 <= i < links@.len() && !(#[trigger] links@[i]).timestamp.valid(),
    {
        let mut i: usize = 0;
        while i < links.len()
            invariant
                i <= links.len(),
                self.directory() == old(self).directory(),
                forall|k: int| 0 <= k < i ==> (#[trigger] links@[k]).timestamp.valid(),
            decreases links.len() - i,
        {
            let link = links[i].clone();
            assert(link.timestamp == links@[i as int].timestamp);
            match self.add(link) {
                Ok(()) => {},
                Err(e) => {
                    return Err(e);
                },
            }
            i += 1;
        }
        Ok(())
    }

    /// Removes what is stored under the URL of `link`. Where nothing is
    /// stored under it, nothing happens. A failure of the store comes back as
    /// `Error::Rusqlite`.
    pub fn remove(&mut self, link: &Link) -> (r: Result<(), Error>)
        ensures
            final(self).directory() == old(self).directory(),
            r matches Err(e) ==> e is Rusqlite,
    {
        match execute_with_text(&self.conn, DELETE_LINK, link.url.as_str()) {
            Ok(()) => Ok(()),
            Err(e) => Err(Error::Rusqlite(e)),
        }
    }

    /// Makes what was written lasting and visible. This store writes every
    /// link at once, so nothing is left to do.
    pub fn commit(&mut self) -> (r: Result<(), Error>)
        ensures
            r is Ok,
            final(self).directory() == old(self).directory(),
    {
        Ok(())
    }

    /// Searches the store. The empty query brings the latest links, at most
    /// `LATEST_LIMIT` of them, latest first and without scores. Any other
    /// query brings the links in which each of its words is found, with their
    /// scores, best first. The store is not changed.
    pub fn search(&self, query: &str) -> (r: Result<Vec<Link>, Error>)
        ensures
            match r {
                Ok(found) => {
                    &&& exists|rows: Seq<LinkView>| link_views(found@) == answer(query@, rows)
                    &&& query@.len() == 0 ==> found@.len() <= LATEST_LIMIT && latest_first(
                        link_views(found@),
                    ) && forall|i: int| 0 <= i < found@.len() ==> (#[trigger] found@[i]).score is None
                    &&& query@.len() > 0 ==> best_first(link_views(found@))
                },
                Err(e) => e is Rusqlite,
            },
    {
        match query_links(&self.conn, SELECT_LATEST, row_limit(query)) {
            Ok(rows) => {
                let found = answer_query(query, &rows);
                proof {
                    lemma_answer(query@, link_views(rows@));
                    assert forall|i: int| 0 <= i < found@.len() && query@.len() == 0 implies (
                    #[trigger] found@[i]).score is None by {
                        assert(link_views(found@)[i].score is None);
                    }
                }
                Ok(found)
            },
            Err(e) => Err(Error::Rusqlite(e)),
        }
    }

    /// Brings the `n` latest links, latest first and without scores.
    pub fn get_latest_n(&self, n: u32) -> (r: Result<Vec<Link>, Error>)
        ensures
            match r {
                Ok(found) => {
                    &&& exists|rows: Seq<LinkView>| link_views(found@) == latest(rows, n as nat)
                    &&& found@.len() <= n
                    &&& latest_first(link_views(found@))
                },
                Err(e) => e is Rusqlite,
            },
    {
        match query_links(&self.conn, SELECT_LATEST, n as i64) {
            Ok(rows) => {
                let found = latest_links(&rows, n as usize);
                proof {
                    lemma_latest(link_views(rows@), n as nat);
                }
                Ok(found)
            },
            Err(e) => Err(Error::Rusqlite(e)),
        }
    }
}

} // verus!
