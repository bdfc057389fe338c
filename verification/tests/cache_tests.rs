use linkcache::cache::{row_limit, Cache};
use linkcache::ddl::validate_migrations;
use linkcache::error::Error;
use linkcache::link::{Link, Timestamp};
use tempfile::{tempdir, TempDir};

fn create_test_cache() -> (Cache, TempDir) {
    let binding = tempdir().expect("Failed to create temp dir");
    let temp_dir = binding.path().to_str().expect("temp dir is not UTF-8").to_string();
    let cache = Cache::builder()
        .with_data_dir(&temp_dir)
        .build()
        .expect("Failed to create test cache");
    (cache, binding)
}

fn add_link_fixtures(cache: &mut Cache) -> Result<(), Error> {
    let now = Timestamp::now();
    let one_hour_ago = Timestamp { secs: now.secs - 3600, nanos: now.nanos };

    cache.add(Link {
        guid: "test-guid-1".to_string(),
        title: "Visual Studio Code".to_string(),
        url: "https://code.visualstudio.com".to_string(),
        timestamp: one_hour_ago,
        ..Default::default()
    })?;

    cache.add(Link {
        guid: "test-guid-2".to_string(),
        title: "Sublime Text".to_string(),
        url: "https://www.sublimetext.com".to_string(),
        timestamp: now,
        ..Default::default()
    })?;

    Ok(())
}

#[test]
fn migrations_test() {
    assert!(validate_migrations().is_ok());
}

#[test]
fn test_build_with_custom_data_dir() {
    let (_cache, _temp_dir) = create_test_cache();
}

#[test]
fn test_get_top_n() -> Result<(), Error> {
    let (mut cache, _temp_dir) = create_test_cache();
    add_link_fixtures(&mut cache)?;
    let results = cache.get_latest_n(2)?;
    assert_eq!(results.len(), 2);
    Ok(())
}

#[test]
fn test_removal() -> Result<(), Error> {
    let (mut cache, _temp_dir) = create_test_cache();
    add_link_fixtures(&mut cache)?;
    cache.remove(&Link {
        url: "https://www.sublimetext.com".to_string(),
        ..Default::default()
    })?;
    let results = cache.search("Sublime")?;
    assert!(results.is_empty());
    Ok(())
}

#[test]
fn test_search_empty() -> Result<(), Error> {
    let (mut cache, _temp_dir) = create_test_cache();
    add_link_fixtures(&mut cache)?;
    let results = cache.search("")?;
    assert!(!results.is_empty());
    Ok(())
}

#[test]
fn test_search_fuzzy() -> Result<(), Error> {
    let (mut cache, _temp_dir) = create_test_cache();
    add_link_fixtures(&mut cache)?;

    cache.add(Link {
        title: "Visual Studio Code Editor".to_string(),
        url: "https://code.visualstudio.com/editor".to_string(),
        ..Default::default()
    })?;

    let results = cache.search("Vis studio")?;
    assert!(!results.is_empty(), "Should find results with fuzzy search");
    assert!(
        results[0].title.contains("Visual Studio"),
        "First result should contain 'Visual Studio'"
    );
    Ok(())
}

#[test]
fn test_indexing_chrome_bookmarks() -> Result<(), Error> {
    let (mut cache, _temp_dir) = create_test_cache();

    cache.add(Link {
        title: "Visual Studio Code".to_string(),
        url: "https://code.visualstudio.com".to_string(),
        ..Default::default()
    })?;
    cache.add(Link {
        title: "Sublime Text".to_string(),
        url: "https://www.sublimetext.com".to_string(),
        ..Default::default()
    })?;
    let results = &cache.search("Visual").expect("Search failed");
    assert!(!results.is_empty(), "Should find Visual Studio Code");
    assert!(results[0].title.contains("Visual"), "Result should contain 'Visual'");
    Ok(())
}

#[test]
fn misspelled_query_finds_the_title_and_not_the_unrelated_one() -> Result<(), Error> {
    let (mut cache, _temp_dir) = create_test_cache();
    add_link_fixtures(&mut cache)?;
    let results = cache.search("vis stdio")?;
    assert_eq!(results.len(), 1);
    assert_eq!(results[0].title, "Visual Studio Code");
    assert!(results[0].score.is_some());
    assert!(results[0].score.unwrap() > 0);
    Ok(())
}

fn link(url: &str, title: &str, secs: i64) -> Link {
    Link {
        guid: format!("guid-{}", url),
        url: url.to_string(),
        title: title.to_string(),
        timestamp: Timestamp { secs, nanos: 0 },
        ..Default::default()
    }
}

#[test]
fn added_link_is_found_by_its_exact_title_with_a_score() -> Result<(), Error> {
    let (mut cache, _temp_dir) = create_test_cache();
    cache.add(Link {
        guid: "g-1".to_string(),
        url: "https://www.rust-lang.org".to_string(),
        title: "Rust Programming Language".to_string(),
        subtitle: Some("Languages".to_string()),
        source: Some("firefox".to_string()),
        timestamp: Timestamp { secs: 1_700_000_000, nanos: 123_000_000 },
        score: Some(12345),
    })?;
    let results = cache.search("Rust Programming Language")?;
    assert_eq!(results.len(), 1);
    let found = &results[0];
    assert_eq!(found.guid, "g-1");
    assert_eq!(found.url, "https://www.rust-lang.org");
    assert_eq!(found.title, "Rust Programming Language");
    assert_eq!(found.subtitle, Some("Languages".to_string()));
    assert_eq!(found.source, Some("firefox".to_string()));
    assert_eq!(found.timestamp, Timestamp { secs: 1_700_000_000, nanos: 123_000_000 });
    assert!(found.score.is_some());
    assert_ne!(found.score, Some(12345));
    assert!(found.score.unwrap() > 0);
    Ok(())
}

#[test]
fn second_link_of_the_same_url_replaces_the_first() -> Result<(), Error> {
    let (mut cache, _temp_dir) = create_test_cache();
    cache.add(Link {
        subtitle: Some("Zebra crossing".to_string()),
        source: Some("old".to_string()),
        ..link("https://same.example", "Quokka sanctuary", 100)
    })?;
    cache.add(link("https://same.example", "Walrus harbour", 200))?;
    assert!(cache.search("Quokka")?.is_empty());
    assert!(cache.search("Zebra")?.is_empty());
    let results = cache.search("Walrus")?;
    assert_eq!(results.len(), 1);
    assert_eq!(results[0].guid, "guid-https://same.example");
    assert_eq!(results[0].subtitle, None);
    assert_eq!(results[0].source, None);
    assert_eq!(results[0].timestamp, Timestamp { secs: 200, nanos: 0 });
    assert_eq!(cache.get_latest_n(10)?.len(), 1);
    Ok(())
}

#[test]
fn removing_what_is_not_there_is_no_error() -> Result<(), Error> {
    let (mut cache, _temp_dir) = create_test_cache();
    add_link_fixtures(&mut cache)?;
    cache.remove(&link("https://never.stored", "Never", 0))?;
    assert_eq!(cache.get_latest_n(10)?.len(), 2);
    Ok(())
}

#[test]
fn removed_link_is_found_no_more() -> Result<(), Error> {
    let (mut cache, _temp_dir) = create_test_cache();
    add_link_fixtures(&mut cache)?;
    assert_eq!(cache.search("Visual Studio Code")?.len(), 1);
    cache.remove(&link("https://code.visualstudio.com", "another title", 0))?;
    assert!(cache.search("Visual Studio Code")?.is_empty());
    let left = cache.search("")?;
    assert_eq!(left.len(), 1);
    assert_eq!(left[0].title, "Sublime Text");
    Ok(())
}

#[test]
fn empty_search_brings_the_latest_fifty_latest_first() -> Result<(), Error> {
    let (mut cache, _temp_dir) = create_test_cache();
    for i in 0..60 {
        cache.add(link(&format!("https://example.com/{}", i), &format!("Page {}", i), 1_000_000 + i * 7 % 60))?;
    }
    let results = cache.search("")?;
    assert_eq!(results.len(), 50);
    for pair in results.windows(2) {
        assert!(!pair[1].timestamp.is_after(&pair[0].timestamp));
    }
    assert!(results.iter().all(|found| found.score.is_none()));
    assert_eq!(results[0].timestamp.secs, 1_000_059);
    assert_eq!(results[49].timestamp.secs, 1_000_010);
    let three = cache.get_latest_n(3)?;
    assert_eq!(three.len(), 3);
    assert_eq!(three[0].timestamp.secs, 1_000_059);
    assert_eq!(three[2].timestamp.secs, 1_000_057);
    assert!(cache.get_latest_n(0)?.is_empty());
    Ok(())
}

#[test]
fn fractions_of_a_second_and_old_dates_keep_their_order() -> Result<(), Error> {
    let (mut cache, _temp_dir) = create_test_cache();
    cache.add(Link { timestamp: Timestamp { secs: 10, nanos: 0 }, ..link("a", "whole", 0) })?;
    cache.add(Link { timestamp: Timestamp { secs: 10, nanos: 500_000_000 }, ..link("b", "half", 0) })?;
    cache.add(Link { timestamp: Timestamp { secs: 10, nanos: 250_000_001 }, ..link("c", "quarter", 0) })?;
    cache.add(Link { timestamp: Timestamp { secs: -1, nanos: 0 }, ..link("d", "before", 0) })?;
    let titles: Vec<String> = cache.search("")?.into_iter().map(|l| l.title).collect();
    assert_eq!(titles, vec!["half", "quarter", "whole", "before"]);
    Ok(())
}

#[test]
fn link_dated_beyond_the_calendar_is_refused_before_it_is_stored() -> Result<(), Error> {
    let (mut cache, _temp_dir) = create_test_cache();
    let result = cache.add(Link {
        timestamp: Timestamp { secs: i64::MAX, nanos: 0 },
        ..link("https://late.example", "Late", 0)
    });
    assert!(matches!(result, Err(Error::Parse(_))));
    assert!(cache.search("")?.is_empty());
    let many = cache.add_all(vec![
        link("https://one.example", "One", 1),
        Link { timestamp: Timestamp { secs: 0, nanos: 3_000_000_000 }, ..link("https://two.example", "Two", 0) },
        link("https://three.example", "Three", 3),
    ]);
    assert!(matches!(many, Err(Error::Parse(_))));
    let stored: Vec<String> = cache.search("")?.into_iter().map(|l| l.title).collect();
    assert_eq!(stored, vec!["One"]);
    Ok(())
}

#[test]
fn commit_succeeds_and_changes_nothing() -> Result<(), Error> {
    let (mut cache, _temp_dir) = create_test_cache();
    add_link_fixtures(&mut cache)?;
    cache.commit()?;
    assert_eq!(cache.search("")?.len(), 2);
    Ok(())
}

#[test]
fn search_ranks_title_matches_above_subtitle_matches() -> Result<(), Error> {
    let (mut cache, _temp_dir) = create_test_cache();
    cache.add(Link { subtitle: Some("Kangaroo".to_string()), ..link("https://a.example", "Something else", 1) })?;
    cache.add(Link { subtitle: Some("Something else".to_string()), ..link("https://b.example", "Kangaroo", 2) })?;
    let results = cache.search("kangaroo")?;
    assert_eq!(results.len(), 2);
    assert_eq!(results[0].url, "https://b.example");
    assert_eq!(results[0].score.unwrap(), 2 * results[1].score.unwrap());
    Ok(())
}

#[test]
fn query_of_odd_characters_is_no_error() -> Result<(), Error> {
    let (mut cache, _temp_dir) = create_test_cache();
    add_link_fixtures(&mut cache)?;
    for query in ["\"", "a AND", "NEAR(", "-x", "*", "'; DROP TABLE links; --", "   "] {
        let results = cache.search(query)?;
        assert!(results.len() <= 2);
    }
    assert_eq!(cache.search("")?.len(), 2);
    Ok(())
}

#[test]
fn cache_is_kept_in_the_chosen_directory_and_survives_reopening() -> Result<(), Error> {
    let binding = tempdir().expect("Failed to create temp dir");
    let dir = binding.path().to_str().unwrap().to_string();
    {
        let mut cache = Cache::builder().with_data_dir(&dir).build()?;
        assert_eq!(cache.data_dir(), &dir);
        add_link_fixtures(&mut cache)?;
    }
    assert!(binding.path().join("linkcache.sqlite").exists());
    let cache = Cache::builder().with_data_dir(&dir).build()?;
    assert_eq!(cache.search("")?.len(), 2);
    Ok(())
}

#[test]
fn cache_in_a_missing_directory_is_an_error_of_the_store() {
    let result = Cache::builder().with_data_dir("/no/such/directory/anywhere").build();
    assert!(matches!(result, Err(Error::Rusqlite(_))));
}

#[test]
fn database_of_another_shape_fails_the_migration() {
    let binding = tempdir().expect("Failed to create temp dir");
    {
        let conn = rusqlite::Connection::open(binding.path().join("linkcache.sqlite")).unwrap();
        conn.execute_batch("CREATE TABLE links (other TEXT);").unwrap();
    }
    let result = Cache::builder().with_data_dir(binding.path().to_str().unwrap()).build();
    assert!(matches!(result, Err(Error::Migration(_))));
}

#[test]
fn default_data_dir_is_below_the_home_directory() {
    let home = dirs::home_dir()
        .map(|dir| dir.to_str().unwrap().to_string())
        .unwrap_or_else(|| "/tmp".to_string());
    assert_eq!(
        linkcache::CacheBuilder::default_data_dir(),
        linkcache::paths::join_path(&home, ".linkcache")
    );
}

#[test]
fn outside_errors_turn_into_errors_of_the_library() {
    let io = std::io::Error::new(std::io::ErrorKind::Other, "disk");
    assert!(matches!(Error::from(io), Error::Io(_)));
    let sqlite = rusqlite::Connection::open("/no/such/directory/anywhere/db").unwrap_err();
    assert!(matches!(Error::from(sqlite), Error::Rusqlite(_)));
    let json = serde_json::from_str::<serde_json::Value>("{").unwrap_err();
    assert!(matches!(Error::from(json), Error::Serde(_)));
    let listing = ini::Ini::load_from_str("[broken").unwrap_err();
    assert!(matches!(Error::from(ini::Error::Parse(listing)), Error::Ini(_)));
    let migration = rusqlite_migration::Migrations::new(Vec::new()).validate().unwrap_err();
    assert!(matches!(Error::from(migration), Error::Migration(_)));
}

#[test]
fn no_links_are_stored_without_error() -> Result<(), Error> {
    let (mut cache, _temp_dir) = create_test_cache();
    cache.add_all(Vec::new())?;
    assert!(cache.search("")?.is_empty());
    cache.add_all(vec![link("https://one.example", "One", 1), link("https://two.example", "Two", 2)])?;
    assert_eq!(cache.search("")?.len(), 2);
    Ok(())
}

#[test]
fn search_asks_for_fifty_rows_or_for_all() {
    assert_eq!(row_limit(""), 50);
    assert_eq!(row_limit("a"), -1);
    assert_eq!(row_limit(" "), -1);
}

#[test]
fn search_for_a_word_looks_at_every_row() -> Result<(), Error> {
    let (mut cache, _temp_dir) = create_test_cache();
    for i in 0..70 {
        cache.add(link(&format!("https://example.com/{}", i), &format!("Chapter {}", i), i))?;
    }
    assert_eq!(cache.search("chapter")?.len(), 70);
    assert_eq!(cache.search("")?.len(), 50);
    Ok(())
}
