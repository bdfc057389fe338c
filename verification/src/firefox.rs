//! The Firefox browser as a source of links: the bookmarks and the history
//! of a profile, read from a copy of its places database.

use crate::cache::Cache;
use crate::error::{not_found_error, unsupported_error, Error};
use crate::link::{link_views, Link};
use crate::paths::{home_directory, join_path, path_join, same_text};
use crate::rows::{are_links_of_rows, lemma_links_of_rows_are_dated, rows_to_links};
use crate::sqlite::{open_existing, query_texts};
use ini::Error as IniError;
use vstd::prelude::*;

verus! {

/// The name of the places database in a profile.
pub const PLACES_FILE: &'static str = "places.sqlite";

/// The name of the copy of the places database in the data directory of the
/// cache.
pub const PLACES_REPLICA_FILE: &'static str = "firefox-places.sqlite";

/// The key under which a section names the default profile.
pub const DEFAULT_KEY: &'static str = "Default";

/// What the names of the sections that describe an installation begin with.
pub const INSTALL_PREFIX: &'static str = "Install";

/// Reads every bookmark with its place and the title of its folder.
pub const SELECT_BOOKMARKS: &'static str =
    "SELECT b.guid, p.url, b.title, COALESCE(f.title, '')
     FROM moz_bookmarks b
     JOIN moz_places p ON p.id = b.fk
     LEFT JOIN moz_bookmarks f ON f.id = b.parent
     WHERE b.type = 1
     ORDER BY b.id";

/// Reads every place that was visited, oldest visit first.
pub const SELECT_HISTORY: &'static str =
    "SELECT guid, url, title FROM moz_places
     WHERE last_visit_date IS NOT NULL
     ORDER BY last_visit_date ASC";

/// One section of a profile listing: its name, if it has one, and the value
/// that it has under the key that was asked for, if it has that key.
pub struct ProfileSection {
    pub name: Option<Seq<char>>,
    pub value: Option<Seq<char>>,
}

/// The sections of the profile listing `text` as `ini::Ini::load_from_str`
/// reads it, each name once, in the order in which the names first come in
/// the text, each with what `Ini::get_from` finds in it under `key`; `None`
/// where the text is no listing.
pub uninterp spec fn listed_sections(text: Seq<char>, key: Seq<char>) -> Option<
    Seq<ProfileSection>,
>;

/// What a parsed listing gives for each section: the name and the value
/// under the key.
pub open spec fn section_views(sections: Seq<(Option<String>, Option<String>)>) -> Seq<
    ProfileSection,
> {
    Seq::new(
        sections.len(),
        |i: int|
            ProfileSection { name: sections[i].0.deep_view(), value: sections[i].1.deep_view() },
    )
}

/// Parses a profile listing with `ini::Ini::load_from_str`, asks
/// `Ini::sections` for the names of its sections and `Ini::get_from` for the
/// value under `key` in each.
#[verifier::external_body]
fn parse_listing(text: &str, key: &str) -> (r: Result<
    Vec<(Option<String>, Option<String>)>,
    IniError,
>)
    ensures
        match r {
            Ok(sections) => listed_sections(text@, key@) == Some(section_views(sections@)),
            Err(_) => listed_sections(text@, key@) is None,
        },
{
    let listing = ini::Ini::load_from_str(text).map_err(IniError::Parse)?;
    let names = listing.sections();
    Ok(names.map(|name| {
        (name.map(str::to_owned), listing.get_from(name, key).map(str::to_owned))
    }).collect())
}

/// Where Firefox keeps its profiles below the home directory, by operating
/// system; `None` for a system that is not known.
pub open spec fn firefox_directory(os: Seq<char>) -> Option<Seq<char>> {
    if os == "macos"@ {
        Some("Library/Application Support/Firefox"@)
    } else if os == "linux"@ {
        Some(".mozilla/firefox"@)
    } else if os == "windows"@ {
        Some("AppData/Roaming/Mozilla/Firefox"@)
    } else {
        None
    }
}

/// Whether `name` begins with `prefix`.
pub open spec fn begins_with(name: Seq<char>, prefix: Seq<char>) -> bool {
    name.len() >= prefix.len() && name.subrange(0, prefix.len() as int) == prefix
}

/// Whether a section names the default profile of an installation.
pub open spec fn names_default(section: ProfileSection) -> bool {
    section.name is Some && begins_with(section.name->0, INSTALL_PREFIX@) && section.value
        is Some
}

/// The default profile of a listing: the value of the first section whose
/// name begins with `Install` and that has a value.
pub open spec fn default_profile(sections: Seq<ProfileSection>) -> Option<Seq<char>>
    decreases sections.len(),
{
    if sections.len() == 0 {
        None
    } else if names_default(sections[0]) {
        sections[0].value
    } else {
        default_profile(sections.skip(1))
    }
}

fn starts_with(name: &str, prefix: &str) -> (r: bool)
    ensures
        r == begins_with(name@, prefix@),
{
    let n = prefix.unicode_len();
    if name.unicode_len() < n {
        false
    } else {
        same_text(name.substring_char(0, n), prefix)
    }
}

/// Picks the default profile out of the sections of a listing.
pub fn choose_profile(sections: &Vec<(Option<String>, Option<String>)>) -> (r: Option<String>)
    ensures
        r.deep_view() == default_profile(section_views(sections@)),
{
    let ghost all = section_views(sections@);
    let mut i: usize = 0;
    assert(all.skip(0) =~= all);
    while i < sections.len()
        invariant
            i <= sections.len(),
            all == section_views(sections@),
            default_profile(all) == default_profile(all.skip(i as int)),
        decreases sections.len() - i,
    {
        assert(all.skip(i as int).skip(1) =~= all.skip(i + 1));
        match (&sections[i].0, &sections[i].1) {
            (Some(name), Some(default)) => {
                if starts_with(name.as_str(), INSTALL_PREFIX) {
                    return Some(default.clone());
                }
            },
            _ => {},
        }
        i += 1;
    }
    None
}

/// A profile of the Firefox browser: the directory that holds its files.
#[derive(Debug)]
pub struct Browser {
    profile_dir: String,
}

impl Browser {
    /// The directory of the profile.
    pub closed spec fn directory(&self) -> Seq<char> {
        self.profile_dir@
    }

    /// The browser of the default profile that the listing `profiles_ini`,
    /// found in the directory `profiles_dir`, names.
    pub fn new(profiles_dir: &str, profiles_ini: &str) -> (r: Result<Self, Error>)
        ensures
            match listed_sections(profiles_ini@, DEFAULT_KEY@) {
                Some(sections) => match default_profile(sections) {
                    Some(profile) => r matches Ok(browser) && browser.directory() == path_join(
                        profiles_dir@,
                        profile,
                    ),
                    None => r matches Err(Error::Io(_)),
                },
                None => r matches Err(Error::Ini(_)),
            },
    {
        match Self::default_profile_dir(profiles_dir, profiles_ini) {
            Ok(profile_dir) => Ok(Browser { profile_dir }),
            Err(e) => Err(e),
        }
    }

    /// The same browser with its profile in the directory `dir`.
    pub fn with_profile_dir(self, dir: String) -> (r: Self)
        ensures
            r.directory() == dir@,
    {
        Browser { profile_dir: dir }
    }

    /// The directory of the profile.
    pub fn profile_dir(&self) -> (r: &String)
        ensures
            r@ == self.directory(),
    {
        &self.profile_dir
    }

    /// Adds every visited place of the copy of the places database to the
    /// cache, and stops at the first that the cache refuses. The links are
    /// dated as they are read, so only the two stores can fail: every error
    /// is `Error::Rusqlite`.
    pub fn cache_history(&self, cache: &mut Cache) -> (r: Result<(), Error>)
        ensures
            final(cache).directory() == old(cache).directory(),
            r matches Err(e) ==> e is Rusqlite,
    {
        match self.all_history(cache) {
            Ok(links) => {
                proof {
                    lemma_links_of_rows_are_dated(link_views(links@), Seq::empty(), 3, None);
                    assert forall|i: int| 0 <= i < links@.len() implies (#[trigger] links@[i]).timestamp.valid() by {
                        assert(link_views(links@)[i].timestamp == links@[i].timestamp);
                    }
                }
                cache.add_all(links)
            },
            Err(e) => Err(e),
        }
    }

    /// Adds every bookmark of the copy of the places database to the cache,
    /// and stops at the first that the cache refuses. The links are dated as
    /// they are read, so only the two stores can fail: every error is
    /// `Error::Rusqlite`.
    pub fn cache_bookmarks(&self, cache: &mut Cache) -> (r: Result<(), Error>)
        ensures
            final(cache).directory() == old(cache).directory(),
            r matches Err(e) ==> e is Rusqlite,
    {
        match self.all_bookmarks(cache) {
            Ok(links) => {
                proof {
                    lemma_links_of_rows_are_dated(link_views(links@), Seq::empty(), 4, None);
                    assert forall|i: int| 0 <= i < links@.len() implies (#[trigger] links@[i]).timestamp.valid() by {
                        assert(link_views(links@)[i].timestamp == links@[i].timestamp);
                    }
                }
                cache.add_all(links)
            },
            Err(e) => Err(e),
        }
    }

    /// Reads all bookmarks as links from the copy of the places database in
    /// the data directory of the cache. A row that lacks a guid, a URL or a
    /// title gives no link.
    pub fn all_bookmarks(&self, cache: &Cache) -> (r: Result<Vec<Link>, Error>)
        ensures
            match r {
                Ok(found) => are_links_of_rows(link_views(found@), Seq::empty(), 4, None),
                Err(e) => e is Rusqlite,
            },
    {
        let path = self.places_replica_path(cache);
        let conn = match open_existing(path.as_str()) {
            Ok(conn) => conn,
            Err(e) => {
                return Err(Error::Rusqlite(e));
            },
        };
        let params: Vec<String> = Vec::new();
        match query_texts(&conn, SELECT_BOOKMARKS, &params, 4) {
            Ok(rows) => {
                let found = rows_to_links(&rows, "", 4, None);
                proof {
                    reveal_strlit("");
                    assert(""@ =~= Seq::<char>::empty());
                }
                Ok(found)
            },
            Err(e) => Err(Error::Rusqlite(e)),
        }
    }

    /// Reads the whole history as links from the copy of the places database
    /// in the data directory of the cache. A row that lacks a guid, a URL or
    /// a title gives no link.
    pub fn all_history(&self, cache: &Cache) -> (r: Result<Vec<Link>, Error>)
        ensures
            match r {
                Ok(found) => are_links_of_rows(link_views(found@), Seq::empty(), 3, None),
                Err(e) => e is Rusqlite,
            },
    {
        let path = self.places_replica_path(cache);
        let conn = match open_existing(path.as_str()) {
            Ok(conn) => conn,
            Err(e) => {
                return Err(Error::Rusqlite(e));
            },
        };
        let params: Vec<String> = Vec::new();
        match query_texts(&conn, SELECT_HISTORY, &params, 3) {
            Ok(rows) => {
                let found = rows_to_links(&rows, "", 3, None);
                proof {
                    reveal_strlit("");
                    assert(""@ =~= Seq::<char>::empty());
                }
                Ok(found)
            },
            Err(e) => Err(Error::Rusqlite(e)),
        }
    }

    /// Returns the full path of the places database.
    pub fn places_path(&self) -> (r: String)
        ensures
            r@ == path_join(self.directory(), PLACES_FILE@),
    {
        join_path(self.profile_dir.as_str(), PLACES_FILE)
    }

    /// Returns the full path of the copy of the places database inside the
    /// data directory of the cache.
    pub fn places_replica_path(&self, cache: &Cache) -> (r: String)
        ensures
            r@ == path_join(cache.directory(), PLACES_REPLICA_FILE@),
    {
        join_path(cache.data_dir().as_str(), PLACES_REPLICA_FILE)
    }

    /// Returns the directory of the default profile: the one that the first
    /// section of the listing whose name begins with `Install` gives under
    /// `Default`, below `profiles_dir`. A text that is no listing is refused
    /// with `Error::Ini`, a listing that names no default with `Error::Io`.
    pub fn default_profile_dir(profiles_dir: &str, profiles_ini: &str) -> (r: Result<
        String,
        Error,
    >)
        ensures
            match listed_sections(profiles_ini@, DEFAULT_KEY@) {
                Some(sections) => match default_profile(sections) {
                    Some(profile) => r matches Ok(dir) && dir@ == path_join(
                        profiles_dir@,
                        profile,
                    ),
                    None => r matches Err(Error::Io(_)),
                },
                None => r matches Err(Error::Ini(_)),
            },
    {
        let sections = match parse_listing(profiles_ini, DEFAULT_KEY) {
            Ok(sections) => sections,
            Err(e) => {
                return Err(Error::Ini(e));
            },
        };
        match choose_profile(&sections) {
            Some(profile) => Ok(join_path(profiles_dir, profile.as_str())),
            None => Err(Error::Io(not_found_error("Could not find default profile directory."))),
        }
    }

    /// Returns the directory that holds all Firefox profiles: `test_dir` if
    /// one is given; else the place where Firefox keeps them on the operating
    /// system `os`, below the home directory. Where no home directory is
    /// known, or the system is none of `macos`, `linux` and `windows`, the
    /// error is `Error::Io`.
    pub fn default_firefox_profiles_dir(test_dir: Option<String>, os: &str) -> (r: Result<
        String,
        Error,
    >)
        ensures
            match test_dir {
                Some(dir) => r matches Ok(found) && found@ == dir@,
                None => match r {
                    Ok(found) => firefox_directory(os@) is Some && exists|home: Seq<char>|
                        found@ == path_join(home, firefox_directory(os@)->0),
                    Err(e) => e is Io,
                },
            },
            test_dir is None && firefox_directory(os@) is None ==> r is Err,
    {
        match test_dir {
            Some(dir) => {
                return Ok(dir);
            },
            None => {},
        }
        let home = match home_directory() {
            Some(home) => home,
            None => {
                return Err(Error::Io(not_found_error("Could not determine home directory.")));
            },
        };
        let below = if same_text(os, "macos") {
            "Library/Application Support/Firefox"
        } else if same_text(os, "linux") {
            ".mozilla/firefox"
        } else if same_text(os, "windows") {
            "AppData/Roaming/Mozilla/Firefox"
        } else {
            let mut message = "Unsupported operating system: ".to_owned();
            message.append(os);
            return Err(Error::Io(unsupported_error(message.as_str())));
        };
        let dir = join_path(home.as_str(), below);
        assert(dir@ == path_join(home@, firefox_directory(os@)->0));
        Ok(dir)
    }
}

} // verus!
