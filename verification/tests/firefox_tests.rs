use linkcache::cache::Cache;
use linkcache::error::Error;
use linkcache::firefox::{choose_profile, Browser};
use linkcache::link::{Link, Timestamp};
use std::path::PathBuf;
use tempfile::{tempdir, TempDir};

const PROFILES_INI: &str = "[Install4F96D1932A9F858E]
Default=test.default
Locked=1

[Profile0]
Name=default
IsRelative=1
Path=test.default
Default=1

[General]
StartWithLastProfile=1
Version=2
";

fn create_test_cache() -> (Cache, TempDir) {
    let binding = tempdir().expect("Failed to create temp dir");
    let temp_dir = binding.path().to_str().expect("temp dir is not UTF-8").to_string();
    let cache = Cache::builder()
        .with_data_dir(&temp_dir)
        .build()
        .expect("Failed to create test cache");
    (cache, binding)
}

/// The directory that stands for the test profiles.
fn test_firefox_profiles_dir() -> PathBuf {
    PathBuf::from("/test_data/firefox_profile")
}

/// The directory that stands for the test profile.
fn test_firefox_profile_dir() -> PathBuf {
    let mut path = test_firefox_profiles_dir();
    path.push("test.default");
    path
}

fn text(path: PathBuf) -> String {
    path.to_str().expect("a path of valid Unicode").to_string()
}

fn new_browser() -> Result<Browser, Error> {
    Browser::new(&text(test_firefox_profiles_dir()), PROFILES_INI)
}

/// Writes the places of the test profile where the copy of the places
/// database is looked for.
fn create_places_replica(browser: &Browser, cache: &Cache) -> Result<(), rusqlite::Error> {
    let conn = rusqlite::Connection::open(browser.places_replica_path(cache))?;
    conn.execute_batch(
        "CREATE TABLE moz_places (
            id INTEGER PRIMARY KEY, url TEXT, title TEXT, guid TEXT, last_visit_date INTEGER
        );
        CREATE TABLE moz_bookmarks (
            id INTEGER PRIMARY KEY, type INTEGER, fk INTEGER, parent INTEGER, title TEXT, guid TEXT
        );
        INSERT INTO moz_places VALUES (1, 'https://www.mozilla.org/', 'Mozilla', 'place-moz', 1700000001000000);
        INSERT INTO moz_places VALUES (2, 'https://www.rust-lang.org/', 'Rust Programming Language', 'place-rust', 1700000002000000);
        INSERT INTO moz_places VALUES (3, 'https://github.com/', 'GitHub', 'place-gh', 1700000003000000);
        INSERT INTO moz_places VALUES (4, 'https://example.com/', 'Example Domain', 'place-ex', 1700000004000000);
        INSERT INTO moz_places VALUES (5, 'https://www.wikipedia.org/', 'Wikipedia', 'place-wiki', 1700000005000000);
        INSERT INTO moz_places VALUES (6, 'https://never.example/', 'Never visited', 'place-never', NULL);
        INSERT INTO moz_places VALUES (7, 'https://untitled.example/', NULL, 'place-untitled', 1700000006000000);
        INSERT INTO moz_bookmarks VALUES (1, 2, NULL, 0, '', 'root________');
        INSERT INTO moz_bookmarks VALUES (2, 2, NULL, 1, 'toolbar', 'toolbar_____');
        INSERT INTO moz_bookmarks VALUES (3, 2, NULL, 2, 'Development', 'folder-dev');
        INSERT INTO moz_bookmarks VALUES (4, 1, 1, 2, 'Mozilla', 'bm-moz');
        INSERT INTO moz_bookmarks VALUES (5, 1, 2, 3, 'Rust Programming Language', 'bm-rust');
        INSERT INTO moz_bookmarks VALUES (6, 1, 3, 3, 'GitHub', 'bm-gh');
        INSERT INTO moz_bookmarks VALUES (7, 1, 6, 3, NULL, 'bm-untitled');",
    )
}

#[test]
fn test_find_default_release_dir() {
    let path = Browser::default_firefox_profiles_dir(Some(text(test_firefox_profiles_dir())), "linux")
        .expect("Shouldn't fail");
    assert_eq!(PathBuf::from(path), test_firefox_profiles_dir(), "Should use test directory");
}

#[test]
fn test_default_profile_dir_with_test_data() {
    let profiles_dir =
        Browser::default_firefox_profiles_dir(Some(text(test_firefox_profiles_dir())), "linux").unwrap();
    let default_dir = Browser::default_profile_dir(&profiles_dir, PROFILES_INI).unwrap();
    assert_eq!(
        PathBuf::from(default_dir),
        test_firefox_profile_dir(),
        "Should use test profile directory"
    );
}

#[test]
fn test_with_profile_dir() {
    let profile_dir = test_firefox_profile_dir();
    let browser = new_browser()
        .expect("Failed to create browser")
        .with_profile_dir(text(profile_dir.clone()));

    assert_eq!(
        PathBuf::from(browser.profile_dir()),
        profile_dir,
        "Profile directory should be set correctly"
    );
}

#[test]
fn test_places_path() {
    let profile_dir = test_firefox_profile_dir();
    let browser = new_browser()
        .expect("Failed to create browser")
        .with_profile_dir(text(profile_dir.clone()));

    let expected_path = profile_dir.join("places.sqlite");
    assert_eq!(
        PathBuf::from(browser.places_path()),
        expected_path,
        "Places path should be correct"
    );
}

#[test]
fn test_places_replica_path() {
    let (cache, _tmpdir) = create_test_cache();
    let browser = new_browser().expect("Failed to create browser");

    let expected_path = PathBuf::from(cache.data_dir()).join("firefox-places.sqlite");
    assert_eq!(
        PathBuf::from(browser.places_replica_path(&cache)),
        expected_path,
        "Replica path should be correct"
    );
}

#[test]
fn test_all_bookmarks() {
    let (cache, _tmpdir) = create_test_cache();
    let browser = new_browser()
        .expect("Failed to create browser")
        .with_profile_dir(text(test_firefox_profile_dir()));

    create_places_replica(&browser, &cache).expect("Failed to create places replica");

    let bookmarks = browser.all_bookmarks(&cache).expect("Failed to get all bookmarks");

    assert_eq!(bookmarks.len(), 3, "Should have 3 bookmarks");

    let titles: Vec<String> = bookmarks.iter().map(|b| b.title.clone()).collect();
    assert!(titles.contains(&"Mozilla".to_string()), "Should have Mozilla bookmark");
    assert!(titles.contains(&"Rust Programming Language".to_string()), "Should have Rust bookmark");
    assert!(titles.contains(&"GitHub".to_string()), "Should have GitHub bookmark");
}

#[test]
fn test_all_history() {
    let (cache, _tmpdir) = create_test_cache();
    let browser = new_browser()
        .expect("Failed to create browser")
        .with_profile_dir(text(test_firefox_profile_dir()));

    create_places_replica(&browser, &cache).expect("Failed to create places replica");

    let history = browser.all_history(&cache).expect("Failed to get all history");

    assert!(!history.is_empty(), "Should have history entries");

    let titles: Vec<&str> = history.iter().map(|h| h.title.as_str()).collect();
    assert!(
        titles.contains(&"Example Domain") || titles.contains(&"Wikipedia"),
        "Should have at least one of the expected history entries"
    );
}

#[test]
fn test_cache_bookmarks() {
    let (mut cache, _tmpdir) = create_test_cache();
    let browser = new_browser()
        .expect("Failed to create browser")
        .with_profile_dir(text(test_firefox_profile_dir()));

    create_places_replica(&browser, &cache).expect("Failed to create places replica");

    browser.cache_bookmarks(&mut cache).expect("Failed to cache bookmarks");

    let results = cache.search("Mozilla").expect("Search failed");
    assert!(!results.is_empty(), "Should find Mozilla bookmark");

    let results = cache.search("Rust").expect("Search failed");
    assert!(!results.is_empty(), "Should find Rust bookmark");
}

#[test]
fn test_cache_history() {
    let (mut cache, _tmpdir) = create_test_cache();
    let browser = new_browser()
        .expect("Failed to create browser")
        .with_profile_dir(text(test_firefox_profile_dir()));

    create_places_replica(&browser, &cache).expect("Failed to create places replica");

    browser.cache_history(&mut cache).expect("Failed to cache history");

    let results = cache.search("Example").expect("Search failed");
    assert!(!results.is_empty(), "Should find Example Domain history entry");

    let results = cache.search("Wikipedia").expect("Search failed");
    assert!(!results.is_empty(), "Should find Wikipedia history entry");
}

#[test]
fn test_firefox_cache_bookmarks() {
    let (mut cache, _temp_dir) = create_test_cache();
    let browser = new_browser()
        .expect("Failed to create browser")
        .with_profile_dir(text(test_firefox_profile_dir()));

    create_places_replica(&browser, &cache).expect("Failed to create places replica");

    browser.cache_bookmarks(&mut cache).expect("Failed to cache bookmarks");

    let results = cache.search("Mozilla").expect("Search failed");
    assert!(!results.is_empty(), "Should find Mozilla bookmark");
    assert_eq!(results[0].title, "Mozilla");

    let results = cache.search("Rust").expect("Search failed");
    assert!(!results.is_empty(), "Should find Rust bookmark");
    assert_eq!(results[0].title, "Rust Programming Language");
}

#[test]
fn test_firefox_cache_history() {
    let (mut cache, _temp_dir) = create_test_cache();
    let browser = new_browser()
        .expect("Failed to create browser")
        .with_profile_dir(text(test_firefox_profile_dir()));

    create_places_replica(&browser, &cache).expect("Failed to create places replica");

    browser.cache_history(&mut cache).expect("Failed to cache history");

    let results = cache.search("Wikipedia").expect("Search failed");
    assert!(!results.is_empty(), "Should find Wikipedia history entry");
    assert_eq!(results[0].title, "Wikipedia");
}

#[test]
fn test_firefox_all_bookmarks() {
    let (cache, _temp_dir) = create_test_cache();
    let browser = new_browser()
        .expect("Failed to create browser")
        .with_profile_dir(text(test_firefox_profile_dir()));

    create_places_replica(&browser, &cache).expect("Failed to create places replica");

    let bookmarks = browser.all_bookmarks(&cache).expect("Failed to get all bookmarks");

    assert_eq!(bookmarks.len(), 3, "Should have 3 bookmarks");

    let titles: Vec<String> = bookmarks.iter().map(|b| b.title.clone()).collect();
    assert!(titles.contains(&"Mozilla".to_string()), "Should have Mozilla bookmark");
    assert!(titles.contains(&"Rust Programming Language".to_string()), "Should have Rust bookmark");
    assert!(titles.contains(&"GitHub".to_string()), "Should have GitHub bookmark");

    let has_subtitle = bookmarks.iter().any(|b| b.subtitle.is_some());
    assert!(has_subtitle, "At least one bookmark should have a subtitle");
}

#[test]
fn test_firefox_all_history() {
    let (cache, _temp_dir) = create_test_cache();
    let browser = new_browser()
        .expect("Failed to create browser")
        .with_profile_dir(text(test_firefox_profile_dir()));

    create_places_replica(&browser, &cache).expect("Failed to create places replica");

    let history = browser.all_history(&cache).expect("Failed to get all history");

    assert!(history.len() >= 2, "Should have at least 2 history entries");

    let titles: Vec<String> = history.iter().map(|h| h.title.clone()).collect();
    assert!(titles.contains(&"Example Domain".to_string()), "Should have Example Domain history entry");
    assert!(titles.contains(&"Wikipedia".to_string()), "Should have Wikipedia history entry");
}

#[test]
fn test_firefox_integration_full_workflow() {
    let (mut cache, _temp_dir) = create_test_cache();

    let browser = new_browser()
        .expect("Failed to create browser")
        .with_profile_dir(text(test_firefox_profile_dir()));

    create_places_replica(&browser, &cache).expect("Failed to create places replica");

    browser.cache_bookmarks(&mut cache).expect("Failed to cache bookmarks");
    browser.cache_history(&mut cache).expect("Failed to cache history");

    let results = cache.search("Mozilla").expect("Search failed");
    assert!(!results.is_empty(), "Should find Mozilla bookmark");

    let results = cache.search("Wikipedia").expect("Search failed");
    assert!(!results.is_empty(), "Should find Wikipedia history entry");

    let results = cache.search("Rust").expect("Search failed");
    assert!(!results.is_empty(), "Should find Rust bookmark with partial search");

    cache
        .add(Link {
            guid: "test_guid".to_string(),
            url: "https://www.firefox.com".to_string(),
            title: "Firefox Browser".to_string(),
            subtitle: Some("Test Subtitle".to_string()),
            source: Some("test".to_string()),
            timestamp: Timestamp::now(),
            score: None,
        })
        .expect("Failed to add link");

    let results = cache.search("Firefox Browser").expect("Search failed");
    assert!(!results.is_empty(), "Should find newly added link");
    assert_eq!(results[0].title, "Firefox Browser");
}

#[test]
fn test_firefox_integration_empty_search() {
    let (mut cache, _temp_dir) = create_test_cache();

    let browser = new_browser()
        .expect("Failed to create browser")
        .with_profile_dir(text(test_firefox_profile_dir()));

    create_places_replica(&browser, &cache).expect("Failed to create places replica");

    browser.cache_bookmarks(&mut cache).expect("Failed to cache bookmarks");
    browser.cache_history(&mut cache).expect("Failed to cache history");

    let results = cache.search("").expect("Search failed");
    assert!(!results.is_empty(), "Empty search should return results");

    assert!(results.len() >= 5, "Should have at least 5 items in the cache");
}

#[test]
fn test_firefox_integration_no_results() {
    let (mut cache, _temp_dir) = create_test_cache();

    let browser = new_browser()
        .expect("Failed to create browser")
        .with_profile_dir(text(test_firefox_profile_dir()));

    create_places_replica(&browser, &cache).expect("Failed to create places replica");

    browser.cache_bookmarks(&mut cache).expect("Failed to cache bookmarks");
    browser.cache_history(&mut cache).expect("Failed to cache history");

    let results = cache
        .search("ThisShouldNotExistAnywhere12345")
        .expect("Search failed");
    assert!(results.is_empty(), "Search for non-existent term should return no results");
}

#[test]
fn bookmarks_carry_guid_place_and_folder() {
    let (cache, _temp_dir) = create_test_cache();
    let browser = new_browser().unwrap();
    create_places_replica(&browser, &cache).unwrap();
    let bookmarks = browser.all_bookmarks(&cache).unwrap();
    let rows: Vec<(&str, &str, &str, Option<&str>)> = bookmarks
        .iter()
        .map(|b| (b.guid.as_str(), b.url.as_str(), b.title.as_str(), b.subtitle.as_deref()))
        .collect();
    assert_eq!(
        rows,
        vec![
            ("bm-moz", "https://www.mozilla.org/", "Mozilla", Some("toolbar")),
            ("bm-rust", "https://www.rust-lang.org/", "Rust Programming Language", Some("Development")),
            ("bm-gh", "https://github.com/", "GitHub", Some("Development")),
        ]
    );
    assert!(bookmarks.iter().all(|b| b.score.is_none() && b.source.is_none()));
    assert!(bookmarks.iter().all(|b| b.timestamp.is_valid()));
}

#[test]
fn history_leaves_out_what_was_never_visited_or_has_no_title() {
    let (cache, _temp_dir) = create_test_cache();
    let browser = new_browser().unwrap();
    create_places_replica(&browser, &cache).unwrap();
    let history = browser.all_history(&cache).unwrap();
    let titles: Vec<&str> = history.iter().map(|h| h.title.as_str()).collect();
    assert_eq!(
        titles,
        vec!["Mozilla", "Rust Programming Language", "GitHub", "Example Domain", "Wikipedia"]
    );
    assert_eq!(history[3].guid, "place-ex");
    assert_eq!(history[3].url, "https://example.com/");
    assert_eq!(history[3].subtitle, None);
}

#[test]
fn missing_replica_is_an_error_of_the_store() {
    let (cache, _temp_dir) = create_test_cache();
    let browser = new_browser().unwrap();
    assert!(matches!(browser.all_bookmarks(&cache), Err(Error::Rusqlite(_))));
    assert!(matches!(browser.all_history(&cache), Err(Error::Rusqlite(_))));
}

#[test]
fn default_profile_is_the_first_install_section_with_a_default() {
    let listing = "[Profile0]\nDefault=1\nPath=x\n\n[InstallA]\nLocked=1\n\n[InstallB]\nDefault=Profiles/b.default\n\n[InstallC]\nDefault=Profiles/c.default\n";
    assert_eq!(
        Browser::default_profile_dir("/home/alice/.mozilla/firefox", listing).unwrap(),
        "/home/alice/.mozilla/firefox/Profiles/b.default"
    );
    let browser = Browser::new("/profiles", listing).unwrap();
    assert_eq!(browser.profile_dir(), "/profiles/Profiles/b.default");
}

#[test]
fn listing_without_default_profile_is_an_io_error() {
    let listing = "[Profile0]\nDefault=1\n\n[InstallA]\nLocked=1\n";
    assert!(matches!(Browser::default_profile_dir("/profiles", listing), Err(Error::Io(_))));
    assert!(matches!(Browser::new("/profiles", ""), Err(Error::Io(_))));
}

#[test]
fn text_that_is_no_listing_is_an_ini_error() {
    let listing = "[Install\nDefault=x\n";
    assert!(matches!(Browser::default_profile_dir("/profiles", listing), Err(Error::Ini(_))));
    assert!(matches!(Browser::new("/profiles", listing), Err(Error::Ini(_))));
}

#[test]
fn profile_is_chosen_from_sections() {
    let sections = vec![
        (None, Some("general".to_string())),
        (Some("Profile0".to_string()), Some("1".to_string())),
        (Some("Instal".to_string()), Some("short".to_string())),
        (Some("Install1".to_string()), None),
        (Some("Install".to_string()), Some("exact".to_string())),
        (Some("Install2".to_string()), Some("later".to_string())),
    ];
    assert_eq!(choose_profile(&sections), Some("exact".to_string()));
    assert_eq!(choose_profile(&sections[..4].to_vec()), None);
    assert_eq!(choose_profile(&Vec::new()), None);
}

#[test]
fn profiles_directory_depends_on_the_system() {
    let home = match dirs::home_dir() {
        Some(home) => home.to_str().unwrap().to_string(),
        None => {
            assert!(matches!(Browser::default_firefox_profiles_dir(None, "linux"), Err(Error::Io(_))));
            return;
        }
    };
    let join = |below: &str| linkcache::paths::join_path(&home, below);
    assert_eq!(
        Browser::default_firefox_profiles_dir(None, "macos").unwrap(),
        join("Library/Application Support/Firefox")
    );
    assert_eq!(Browser::default_firefox_profiles_dir(None, "linux").unwrap(), join(".mozilla/firefox"));
    assert_eq!(
        Browser::default_firefox_profiles_dir(None, "windows").unwrap(),
        join("AppData/Roaming/Mozilla/Firefox")
    );
    assert!(matches!(Browser::default_firefox_profiles_dir(None, "plan9"), Err(Error::Io(_))));
    assert_eq!(
        Browser::default_firefox_profiles_dir(Some("/given".to_string()), "plan9").unwrap(),
        "/given"
    );
}

#[test]
fn test_firefox_with_profile_dir() {
    let profile = tempdir().expect("Failed to create temp dir");
    let profile_dir = text(profile.path().to_path_buf());
    let browser = new_browser()
        .expect("Failed to create browser")
        .with_profile_dir(profile_dir);
    rusqlite::Connection::open(browser.places_path())
        .and_then(|conn| conn.execute_batch("CREATE TABLE moz_places (id INTEGER PRIMARY KEY);"))
        .expect("Failed to create places database");

    assert!(
        PathBuf::from(browser.places_path()).exists(),
        "Test places.sqlite should exist"
    );
}
