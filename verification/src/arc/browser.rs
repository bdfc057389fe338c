//! The Arc browser as a source of links: every bookmark of the sidebar, with
//! the path of its folders as subtitle.

use crate::arc::decode::state_of;
use crate::arc::sidebar::{
    ancestor_path, bookmark_views, map_of, separator, sidebar_bookmarks, sidebar_nodes,
    text_or_empty, BookmarkView, NodeView, SidebarContainerView, SidebarState,
};
use crate::error::Error;
use crate::json::Json;
use crate::parse::{fits, parsed, MAX_JSON_DEPTH};
use crate::link::{link_views, Link, LinkView};
use crate::paths::{base_directory, home_directory, home_or_tmp, join_path, path_join, same_text};
use crate::text::{followed_by, join};
use vstd::prelude::*;

verus! {

/// The name of the file that holds the saved sidebar.
pub const SIDEBAR_FILE: &'static str = "StorableSidebar.json";

/// What the guid of every link of this source begins with.
pub const GUID_PREFIX: &'static str = "arc-";

/// Where Arc keeps its data below the home directory, by operating system.
pub open spec fn arc_directory(os: Seq<char>) -> Seq<char> {
    if os == "macos"@ {
        "Library/Application Support/Arc"@
    } else if os == "windows"@ {
        "AppData/Local/Arc"@
    } else {
        ".config/arc"@
    }
}

/// The breadcrumb of the node `id` in a sidebar of these nodes.
pub open spec fn breadcrumb(nodes: Seq<NodeView>, id: Seq<char>) -> Seq<char> {
    join(ancestor_path(map_of(nodes), id, nodes.len()), separator())
}

/// The subtitle of the link of a bookmark: the breadcrumb of its parent,
/// unless it has no parent or the breadcrumb is empty.
pub open spec fn subtitle_of(nodes: Seq<NodeView>, bookmark: BookmarkView) -> Option<Seq<char>> {
    match bookmark.parent_id {
        Some(parent) => if breadcrumb(nodes, parent).len() == 0 {
            None
        } else {
            Some(breadcrumb(nodes, parent))
        },
        None => None,
    }
}

/// Whether `link` is the link of `bookmark` in a sidebar of these nodes.
pub open spec fn is_link_of(link: LinkView, nodes: Seq<NodeView>, bookmark: BookmarkView) -> bool {
    &&& link.url == text_or_empty(bookmark.data.tab.saved_url)
    &&& link.guid == GUID_PREFIX@ + link.url
    &&& link.title == text_or_empty(bookmark.effective_title())
    &&& link.subtitle == subtitle_of(nodes, bookmark)
    &&& link.source is None
    &&& link.score is None
    &&& link.timestamp.valid()
}

/// Whether `links` are the links of the bookmarks of a sidebar, one for
/// each, in their order.
pub open spec fn are_links_of(links: Seq<LinkView>, containers: Seq<SidebarContainerView>) -> bool {
    &&& links.len() == sidebar_bookmarks(containers).len()
    &&& forall|i: int|
        0 <= i < links.len() ==> is_link_of(
            #[trigger] links[i],
            sidebar_nodes(containers),
            sidebar_bookmarks(containers)[i],
        )
}

/// Builds a link for each bookmark of the saved sidebar `document`, in
/// the order of the document. A document that is no saved sidebar state
/// is refused with `Error::Parse`.
pub fn links_of_document(document: &Json) -> (r: Result<Vec<Link>, Error>)
    ensures
        match r {
            Ok(links) => state_of(document@) is Some && are_links_of(
                link_views(links@),
                state_of(document@)->0.containers,
            ),
            Err(e) => state_of(document@) is None && e matches Error::Parse(_),
        },
{
    let mut state = match SidebarState::from_json(document) {
        Ok(state) => state,
        Err(e) => {
            return Err(e);
        },
    };
    let ghost containers = state.sidebar@;
    let ghost nodes = sidebar_nodes(containers);
    let bookmarks = state.bookmarks();
    let mut links: Vec<Link> = Vec::new();
    let mut i: usize = 0;
    while i < bookmarks.len()
        invariant
            i <= bookmarks.len(),
            state.sidebar@ == containers,
            nodes == sidebar_nodes(containers),
            state.built_nodes() == nodes,
            bookmark_views(bookmarks@) == sidebar_bookmarks(containers),
            links.len() == i,
            forall|k: int|
                0 <= k < i ==> is_link_of(
                    (#[trigger] links@[k])@,
                    nodes,
                    sidebar_bookmarks(containers)[k],
                ),
        decreases bookmarks.len() - i,
    {
        let bookmark = &bookmarks[i];
        assert(bookmark@ == sidebar_bookmarks(containers)[i as int]) by {
        }
        let title = match bookmark.title() {
            Some(title) => title,
            None => String::new(),
        };
        let url = match &bookmark.data.tab.saved_url {
            Some(url) => url.clone(),
            None => String::new(),
        };
        let guid = followed_by(GUID_PREFIX, url.as_str());
        let mut link = Link::new(guid, url, title);
        match &bookmark.parent_id {
            Some(parent_id) => {
                let found = state.ancestor_titles(parent_id.as_str());
                match found {
                    Ok(titles) => {
                        if !titles.as_str().is_empty() {
                            link = link.with_subtitle(titles);
                        }
                    },
                    Err(_) => {},
                }
            },
            None => {},
        }
        links.push(link);
        i += 1;
    }
    assert(link_views(links@).len() == sidebar_bookmarks(containers).len()) by {
    }
    assert forall|k: int| 0 <= k < link_views(links@).len() implies is_link_of(
        #[trigger] link_views(links@)[k],
        sidebar_nodes(containers),
        sidebar_bookmarks(containers)[k],
    ) by {
    }
    Ok(links)
}

/// An installation of the Arc browser: the directory of its profile.
#[derive(Debug)]
pub struct Browser {
    profile_dir: String,
}

impl Browser {
    /// The directory of the profile.
    pub closed spec fn directory(&self) -> Seq<char> {
        self.profile_dir@
    }

    /// The browser whose profile lies where Arc keeps it by default on the
    /// operating system `os`.
    pub fn new(os: &str) -> (r: Self)
        ensures
            exists|home: Option<Seq<char>>|
                r.directory() == path_join(home_or_tmp(home), arc_directory(os@)),
    {
        Browser { profile_dir: Self::default_profile_dir(os) }
    }

    /// The same browser with its profile, and so its `StorableSidebar.json`,
    /// in the directory `dir`.
    pub fn with_profile_dir(self, dir: String) -> (r: Self)
        ensures
            r.directory() == dir@,
    {
        Browser { profile_dir: dir }
    }

    /// The directory of the profile.
    pub fn profile_dir(&self) -> (r: &String)
        ensures
            r@ == self.directory(),
    {
        &self.profile_dir
    }

    /// Reads the saved state of the sidebar from its JSON text. Text that is
    /// no JSON is refused with `Error::Serde`; JSON that is nested too deeply
    /// or is no saved sidebar state is refused with `Error::Parse`.
    pub fn sidebar_json(&self, sidebar: &str) -> (r: Result<SidebarState, Error>)
        ensures
            match parsed(sidebar@) {
                Some(tree) => if fits(tree, MAX_JSON_DEPTH as nat) && state_of(tree) is Some {
                    r matches Ok(state) && state_of(tree) == Some(state.document())
                        && state.item_map.recorded().len() == 0
                } else {
                    r matches Err(Error::Parse(_))
                },
                None => r matches Err(Error::Serde(_)),
            },
    {
        match Json::parse(sidebar) {
            Ok(document) => SidebarState::from_json(&document),
            Err(e) => Err(e),
        }
    }

    /// Builds a link for each bookmark of the saved sidebar whose JSON text
    /// is `sidebar`, in the order of the text. Text that is no JSON is
    /// refused with `Error::Serde`; JSON that is nested too deeply or is no
    /// saved sidebar state is refused with `Error::Parse`.
    pub fn sidebar_links(&self, sidebar: &str) -> (r: Result<Vec<Link>, Error>)
        ensures
            match parsed(sidebar@) {
                Some(tree) => if fits(tree, MAX_JSON_DEPTH as nat) && state_of(tree) is Some {
                    r matches Ok(links) && are_links_of(
                        link_views(links@),
                        state_of(tree)->0.containers,
                    )
                } else {
                    r matches Err(Error::Parse(_))
                },
                None => r matches Err(Error::Serde(_)),
            },
    {
        match Json::parse(sidebar) {
            Ok(document) => links_of_document(&document),
            Err(e) => Err(e),
        }
    }

    /// Returns the path of the file `StorableSidebar.json`, which holds the
    /// state of the whole sidebar of pinned sites and bookmarks.
    pub fn sidebar_path(&self) -> (r: String)
        ensures
            r@ == path_join(self.directory(), SIDEBAR_FILE@),
    {
        join_path(self.profile_dir.as_str(), SIDEBAR_FILE)
    }

    /// Returns the directory of the default Arc profile on the operating
    /// system `os`, below the home directory of the user, or below `/tmp`
    /// where no home directory is known.
    pub fn default_profile_dir(os: &str) -> (r: String)
        ensures
            exists|home: Option<Seq<char>>|
                r@ == path_join(home_or_tmp(home), arc_directory(os@)),
    {
        let home = home_directory();
        let base = base_directory(home);
        let below = if same_text(os, "macos") {
            "Library/Application Support/Arc"
        } else if same_text(os, "windows") {
            "AppData/Local/Arc"
        } else {
            ".config/arc"
        };
        let dir = join_path(base.as_str(), below);
        dir
    }
}

} // verus!
