//! The Chrome browser as a source of links: the tree of its bookmarks and
//! the table of its history.

use crate::cache::Cache;
use crate::error::Error;
use crate::json::{views_of, Json, JsonView};
use crate::link::{link_views, Link, LinkView, Timestamp};
use crate::order::{sort_by_key_descending, sort_descending, values};
use crate::parse::{fits, parsed, MAX_JSON_DEPTH};
use crate::paths::{base_directory, home_directory, home_or_tmp, join_path, path_join, same_text};
use crate::rows::{are_links_of_rows, lemma_links_of_rows_are_dated, rows_to_links};
use crate::search::{
    field_points, field_score, keyed_views, lemma_sort_keyed_views, strip_keys,
};
use crate::sqlite::{open_existing, query_texts};
use crate::text::followed_by;
use vstd::prelude::*;

verus! {

/// The name of the file that holds the bookmarks.
pub const BOOKMARKS_FILE: &'static str = "Bookmarks";

/// The name of the database that holds the history.
pub const HISTORY_FILE: &'static str = "History";

/// The name of the copy of the history that is read while the browser runs.
pub const HISTORY_REPLICA_FILE: &'static str = "History.linkcache";

/// How many folders deep the tree of bookmarks is followed.
pub const MAX_DEPTH: usize = 128;

/// What the guid of every link from the history begins with.
pub const HISTORY_GUID_PREFIX: &'static str = "chrome-history-";

/// Reads the whole history, oldest visit first.
pub const SELECT_HISTORY: &'static str =
    "SELECT CAST(id AS TEXT), url, title FROM urls ORDER BY last_visit_time ASC";

/// Reads the part of the history whose title or URL holds a text.
pub const SEARCH_HISTORY: &'static str =
    "SELECT CAST(id AS TEXT), url, title FROM urls
     WHERE title LIKE ?1 OR url LIKE ?1
     ORDER BY typed_count >= 1 DESC, last_visit_time DESC, visit_count DESC, typed_count DESC
     LIMIT 20";

/// Where Chrome keeps its default profile below the home directory, by
/// operating system.
pub open spec fn chrome_directory(os: Seq<char>) -> Seq<char> {
    if os == "macos"@ {
        "Library/Application Support/Google/Chrome/Default"@
    } else if os == "windows"@ {
        "AppData/Local/Google/Chrome/User Data/Default"@
    } else {
        ".config/google-chrome/Default"@
    }
}

/// The link of a bookmark named `name` that points to `url` and lies in the
/// folder `folder`.
pub open spec fn bookmark_link(name: Seq<char>, url: Seq<char>, folder: Seq<char>) -> LinkView {
    LinkView {
        guid: Seq::empty(),
        url,
        title: name,
        subtitle: Some(folder),
        source: None,
        timestamp: Timestamp { secs: 0, nanos: 0 },
        score: None,
    }
}

/// The links of the tree below `node`, which lies in the folder `folder`: the
/// node's own link if it has a name and a URL, then the links of its
/// children, which lie in the folder `folder/name`. Folders are followed
/// `depth` levels down. A node without a name gives nothing.
pub open spec fn node_links(node: JsonView, folder: Seq<char>, depth: nat) -> Seq<LinkView>
    decreases depth, 0nat,
{
    match node.member("name"@) {
        Some(JsonView::String(name)) => {
            let own = match node.member("url"@) {
                Some(JsonView::String(url)) => seq![bookmark_link(name, url, folder)],
                _ => Seq::empty(),
            };
            let below = match node.member("children"@) {
                Some(JsonView::Array(children)) => if depth == 0 {
                    Seq::empty()
                } else {
                    children_links(children, folder + "/"@ + name, (depth - 1) as nat)
                },
                _ => Seq::empty(),
            };
            own + below
        },
        _ => Seq::empty(),
    }
}

/// The links of the trees below `children`, one tree after the other.
pub open spec fn children_links(children: Seq<JsonView>, folder: Seq<char>, depth: nat) -> Seq<
    LinkView,
>
    decreases depth, children.len() + 1,
{
    if children.len() == 0 {
        Seq::empty()
    } else {
        children_links(children.drop_last(), folder, depth) + node_links(
            children.last(),
            folder,
            depth,
        )
    }
}

/// Whether `key` names one of the roots that hold bookmarks.
pub open spec fn is_bookmark_root(key: Seq<char>) -> bool {
    key == "bookmark_bar"@ || key == "other"@ || key == "synced"@
}

/// The links of the roots among `members`, one root after the other.
pub open spec fn roots_links(members: Seq<(Seq<char>, JsonView)>) -> Seq<LinkView>
    decreases members.len(),
{
    if members.len() == 0 {
        Seq::empty()
    } else {
        roots_links(members.drop_last()) + if is_bookmark_root(members.last().0) {
            node_links(members.last().1, Seq::empty(), MAX_DEPTH as nat)
        } else {
            Seq::empty()
        }
    }
}

/// The links of a bookmarks document: those of the members `bookmark_bar`,
/// `other` and `synced` of its member `roots`, in the order in which the
/// document holds these members. A document read from text holds the members
/// of an object as the parser's map hands them out: by name, not as the text
/// has them.
pub open spec fn document_links(document: JsonView) -> Seq<LinkView> {
    match document.member("roots"@) {
        Some(JsonView::Object(members)) => roots_links(members),
        _ => Seq::empty(),
    }
}

/// The text in which a query is looked for: the title, a space, and the
/// subtitle if there is one.
pub open spec fn searched_text(link: LinkView) -> Seq<char> {
    link.title + " "@ + match link.subtitle {
        Some(subtitle) => subtitle,
        None => Seq::empty(),
    }
}

/// The links in whose text the query is found, each with the score of the
/// match as key, in the order of `links`.
pub open spec fn direct_matches(query: Seq<char>, links: Seq<LinkView>) -> Seq<(i128, LinkView)>
    decreases links.len(),
{
    if links.len() == 0 {
        Seq::empty()
    } else {
        let front = direct_matches(query, links.drop_last());
        let score = field_score(query, searched_text(links.last()));
        if score > 0 {
            front.push((score as i128, links.last()))
        } else {
            front
        }
    }
}

/// The links in whose text the query is found, best first; links of equal
/// score stay in the order of `links`.
pub open spec fn direct_ranked(query: Seq<char>, links: Seq<LinkView>) -> Seq<LinkView> {
    values(sort_descending(direct_matches(query, links)))
}

fn text_member<'a>(node: &'a Json, key: &str) -> (r: Option<&'a String>)
    ensures
        match r {
            Some(text) => node@.member(key@) == Some(JsonView::String(text@)),
            None => !(node@.member(key@) matches Some(JsonView::String(_))),
        },
{
    match node.get(key) {
        Some(found) => found.as_str(),
        None => None,
    }
}

/// Appends to `links` the links of the tree below `node`, which lies in the
/// folder `folder`, following folders `depth` levels down.
pub fn traverse(node: &Json, links: &mut Vec<Link>, folder: &str, depth: usize)
    ensures
        link_views(final(links)@) == link_views(old(links)@) + node_links(
            node@,
            folder@,
            depth as nat,
        ),
    decreases depth, 0nat,
{
    match text_member(node, "name") {
        Some(name) => {
            match text_member(node, "url") {
                Some(url) => {
                    links.push(
                        Link {
                            guid: String::new(),
                            url: url.clone(),
                            title: name.clone(),
                            subtitle: Some(folder.to_owned()),
                            source: None,
                            timestamp: Timestamp { secs: 0, nanos: 0 },
                            score: None,
                        },
                    );
                },
                None => {},
            }
            let children = match node.get("children") {
                Some(found) => found.as_array(),
                None => None,
            };
            match children {
                Some(children) => {
                    if depth > 0 {
                        let mut below = followed_by(folder, "/");
                        below.append(name.as_str());
                        traverse_all(children, links, below.as_str(), depth - 1);
                    }
                },
                None => {},
            }
        },
        None => {},
    }
}

/// Appends to `links` the links of the trees below `children`.
pub fn traverse_all(children: &Vec<Json>, links: &mut Vec<Link>, folder: &str, depth: usize)
    ensures
        link_views(final(links)@) == link_views(old(links)@) + children_links(
            views_of(children@),
            folder@,
            depth as nat,
        ),
    decreases depth, children.len() + 1,
{
    let ghost before = link_views(links@);
    let ghost all = views_of(children@);
    let mut i: usize = 0;
    while i < children.len()
        invariant
            i <= children.len(),
            all == views_of(children@),
            link_views(links@) == before + children_links(all.take(i as int), folder@, depth as nat),
        decreases children.len() - i,
    {
        assert(all.take(i + 1).drop_last() =~= all.take(i as int));
        traverse(&children[i], links, folder, depth);
        i += 1;
    }
    assert(all.take(children.len() as int) =~= all);
}

fn is_root_key(key: &str) -> (r: bool)
    ensures
        r == is_bookmark_root(key@),
{
    same_text(key, "bookmark_bar") || same_text(key, "other") || same_text(key, "synced")
}

/// Goes through a bookmarks document and returns each bookmark that is no
/// folder as a link, with the path of its folders as subtitle.
pub fn links_of_document(document: &Json) -> (r: Vec<Link>)
    ensures
        link_views(r@) == document_links(document@),
{
    let mut links: Vec<Link> = Vec::new();
    let roots = match document.get("roots") {
        Some(found) => found.as_object(),
        None => None,
    };
    match roots {
        Some(members) => {
            let ghost all = crate::json::member_views_of(members@);
            let mut i: usize = 0;
            while i < members.len()
                invariant
                    i <= members.len(),
                    all == crate::json::member_views_of(members@),
                    link_views(links@) == roots_links(all.take(i as int)),
                decreases members.len() - i,
            {
                assert(all.take(i + 1).drop_last() =~= all.take(i as int));
                if is_root_key(members[i].0.as_str()) {
                    traverse(&members[i].1, &mut links, "", MAX_DEPTH);
                    proof {
                        reveal_strlit("");
                        assert(""@ =~= Seq::<char>::empty());
                    }
                }
                i += 1;
            }
            assert(all.take(members.len() as int) =~= all);
        },
        None => {},
    }
    links
}

/// The links in whose title and subtitle, taken as one text, the whole query
/// is found by fuzzy matching, best first.
pub fn rank_directly(query: &str, links: &Vec<Link>) -> (r: Vec<Link>)
    ensures
        link_views(r@) == direct_ranked(query@, link_views(links@)),
{
    let ghost all = link_views(links@);
    let mut keyed: Vec<(i128, Link)> = Vec::new();
    let mut i: usize = 0;
    while i < links.len()
        invariant
            i <= links.len(),
            all == link_views(links@),
            keyed_views(keyed@) == direct_matches(query@, all.take(i as int)),
        decreases links.len() - i,
    {
        proof {
            assert(all.take(i + 1).drop_last() =~= all.take(i as int));
        }
        let link = &links[i];
        let mut text = followed_by(link.title.as_str(), " ");
        match &link.subtitle {
            Some(subtitle) => {
                text.append(subtitle.as_str());
            },
            None => {},
        }
        let score = field_points(query, text.as_str());
        if score > 0 {
            keyed.push((score, link.clone()));
        }
        i += 1;
    }
    assert(all.take(links.len() as int) =~= all);
    let sorted = sort_by_key_descending(keyed);
    proof {
        lemma_sort_keyed_views(keyed@);
    }
    strip_keys(&sorted)
}

/// The pattern that finds `query` anywhere in a text: the query between two
/// `%`.
pub fn like_pattern(query: &str) -> (r: String)
    ensures
        r@ == "%"@ + query@ + "%"@,
{
    let mut pattern = followed_by("%", query);
    pattern.append("%");
    pattern
}

/// An installation of the Chrome browser: the directory of its profile.
#[derive(Debug)]
pub struct Browser {
    profile_dir: String,
}

impl Browser {
    /// The directory of the profile.
    pub closed spec fn directory(&self) -> Seq<char> {
        self.profile_dir@
    }

    /// The browser whose profile lies where Chrome keeps its default profile
    /// on the operating system `os`.
    pub fn new(os: &str) -> (r: Result<Self, Error>)
        ensures
            r matches Ok(browser) && exists|home: Option<Seq<char>>|
                browser.directory() == path_join(home_or_tmp(home), chrome_directory(os@)),
    {
        match Self::default_profile_dir(os) {
            Ok(profile_dir) => Ok(Browser { profile_dir }),
            Err(e) => Err(e),
        }
    }

    /// The same browser with its profile in the directory `dir`.
    pub fn with_profile_dir(self, dir: String) -> (r: Self)
        ensures
            r.directory() == dir@,
    {
        Browser { profile_dir: dir }
    }

    /// The directory of the profile.
    pub fn profile_dir(&self) -> (r: &String)
        ensures
            r@ == self.directory(),
    {
        &self.profile_dir
    }

    /// Adds every bookmark of the bookmarks document whose JSON text is
    /// `bookmarks` to the cache, in the order in which `bookmark_links`
    /// gives them, and stops at the first that the cache refuses. Text that
    /// is no JSON is refused with `Error::Serde`, and nothing else is; JSON
    /// that is nested too deeply is refused with `Error::Parse`.
    pub fn cache_bookmarks(&self, cache: &mut Cache, bookmarks: &str) -> (r: Result<(), Error>)
        ensures
            final(cache).directory() == old(cache).directory(),
            parsed(bookmarks@) is None <==> r matches Err(Error::Serde(_)),
            parsed(bookmarks@) matches Some(tree) && !fits(tree, MAX_JSON_DEPTH as nat)
                ==> r matches Err(Error::Parse(_)),
            r matches Err(e) ==> e is Serde || e is Parse || e is Rusqlite,
    {
        let links = match self.bookmark_links(bookmarks) {
            Ok(links) => links,
            Err(e) => {
                return Err(e);
            },
        };
        match cache.add_all(links) {
            Ok(()) => cache.commit(),
            Err(e) => Err(e),
        }
    }

    /// Adds every row of the copy of the history to the cache, oldest visit
    /// first, and stops at the first that the cache refuses. The copy must be
    /// there already. The links are dated as they are read, so only the two
    /// stores can fail: every error is `Error::Rusqlite`.
    pub fn cache_history(&self, cache: &mut Cache) -> (r: Result<(), Error>)
        ensures
            final(cache).directory() == old(cache).directory(),
            r matches Err(e) ==> e is Rusqlite,
    {
        let links = match self.history_links() {
            Ok(links) => links,
            Err(e) => {
                return Err(e);
            },
        };
        proof {
            lemma_links_of_rows_are_dated(link_views(links@), HISTORY_GUID_PREFIX@, 3, None);
            assert forall|i: int| 0 <= i < links@.len() implies (#[trigger] links@[i]).timestamp.valid() by {
                assert(link_views(links@)[i].timestamp == links@[i].timestamp);
            }
        }
        match cache.add_all(links) {
            Ok(()) => cache.commit(),
            Err(e) => Err(e),
        }
    }

    /// Searches the bookmarks of the document whose JSON text is
    /// `bookmarks` without a cache: the links in whose title and subtitle,
    /// taken as one text, the whole query is found by fuzzy matching, best
    /// first.
    pub fn search_bookmarks_directly(&self, query: &str, bookmarks: &str) -> (r: Result<
        Vec<Link>,
        Error,
    >)
        ensures
            match parsed(bookmarks@) {
                Some(tree) => if fits(tree, MAX_JSON_DEPTH as nat) {
                    r matches Ok(found) && link_views(found@) == direct_ranked(
                        query@,
                        document_links(tree),
                    )
                } else {
                    r matches Err(Error::Parse(_))
                },
                None => r matches Err(Error::Serde(_)),
            },
    {
        match self.bookmark_links(bookmarks) {
            Ok(links) => Ok(rank_directly(query, &links)),
            Err(e) => Err(e),
        }
    }

    /// Searches the copy of the history without a cache: at most twenty rows
    /// whose title or URL holds `query`, each with the score 0.
    pub fn search_history_directly(&self, query: &str) -> (r: Result<Vec<Link>, Error>)
        ensures
            match r {
                Ok(found) => are_links_of_rows(link_views(found@), HISTORY_GUID_PREFIX@, 3, Some(0i64)),
                Err(e) => e is Rusqlite,
            },
    {
        let path = self.history_replica_path();
        let conn = match open_existing(path.as_str()) {
            Ok(conn) => conn,
            Err(e) => {
                return Err(Error::Rusqlite(e));
            },
        };
        let mut params: Vec<String> = Vec::new();
        params.push(like_pattern(query));
        match query_texts(&conn, SEARCH_HISTORY, &params, 3) {
            Ok(rows) => {
                let found = rows_to_links(&rows, HISTORY_GUID_PREFIX, 3, Some(0));
                Ok(found)
            },
            Err(e) => Err(Error::Rusqlite(e)),
        }
    }

    /// Goes through the bookmarks document whose JSON text is `bookmarks`
    /// and returns each bookmark that is no folder as a link, with the path
    /// of its folders as subtitle. Text that is no JSON is refused with
    /// `Error::Serde`, JSON that is nested too deeply with `Error::Parse`.
    pub fn bookmark_links(&self, bookmarks: &str) -> (r: Result<Vec<Link>, Error>)
        ensures
            match parsed(bookmarks@) {
                Some(tree) => if fits(tree, MAX_JSON_DEPTH as nat) {
                    r matches Ok(links) && link_views(links@) == document_links(tree)
                } else {
                    r matches Err(Error::Parse(_))
                },
                None => r matches Err(Error::Serde(_)),
            },
    {
        match Json::parse(bookmarks) {
            Ok(document) => Ok(links_of_document(&document)),
            Err(e) => Err(e),
        }
    }

    /// Reads the copy of the history, which must be there already, and
    /// returns a link for each of its rows, oldest visit first.
    pub fn history_links(&self) -> (r: Result<Vec<Link>, Error>)
        ensures
            match r {
                Ok(found) => are_links_of_rows(link_views(found@), HISTORY_GUID_PREFIX@, 3, None),
                Err(e) => e is Rusqlite,
            },
    {
        let path = self.history_replica_path();
        let conn = match open_existing(path.as_str()) {
            Ok(conn) => conn,
            Err(e) => {
                return Err(Error::Rusqlite(e));
            },
        };
        let params: Vec<String> = Vec::new();
        match query_texts(&conn, SELECT_HISTORY, &params, 3) {
            Ok(rows) => {
                let found = rows_to_links(&rows, HISTORY_GUID_PREFIX, 3, None);
                Ok(found)
            },
            Err(e) => Err(Error::Rusqlite(e)),
        }
    }

    /// The path of the file of bookmarks.
    pub fn bookmarks_path(&self) -> (r: String)
        ensures
            r@ == path_join(self.directory(), BOOKMARKS_FILE@),
    {
        join_path(self.profile_dir.as_str(), BOOKMARKS_FILE)
    }

    /// The path of the database of the history.
    pub fn history_path(&self) -> (r: String)
        ensures
            r@ == path_join(self.directory(), HISTORY_FILE@),
    {
        join_path(self.profile_dir.as_str(), HISTORY_FILE)
    }

    /// The path of the copy of the history, beside the history itself.
    pub fn history_replica_path(&self) -> (r: String)
        ensures
            r@ == path_join(self.directory(), HISTORY_REPLICA_FILE@),
    {
        join_path(self.profile_dir.as_str(), HISTORY_REPLICA_FILE)
    }

    /// Returns the directory of the default Chrome profile on the operating
    /// system `os`, below the home directory of the user, or below `/tmp`
    /// where no home directory is known.
    pub fn default_profile_dir(os: &str) -> (r: Result<String, Error>)
        ensures
            r matches Ok(dir) && exists|home: Option<Seq<char>>|
                dir@ == path_join(home_or_tmp(home), chrome_directory(os@)),
    {
        let home = home_directory();
        let base = base_directory(home);
        let below = if same_text(os, "macos") {
            "Library/Application Support/Google/Chrome/Default"
        } else if same_text(os, "windows") {
            "AppData/Local/Google/Chrome/User Data/Default"
        } else {
            ".config/google-chrome/Default"
        };
        let dir = join_path(base.as_str(), below);
        Ok(dir)
    }
}

} // verus!
