use linkcache::cache::Cache;
use linkcache::chrome::{like_pattern, links_of_document, rank_directly, traverse, Browser};
use linkcache::error::Error;
use linkcache::json::Json;
use linkcache::link::{Link, Timestamp};
use tempfile::{tempdir, TempDir};

fn parse(text: &str) -> Json {
    Json::parse(text).expect("the test document is JSON")
}

fn bookmarks_document() -> &'static str {
    r#"{
            "checksum": "abc",
            "roots": {
                "bookmark_bar": {
                    "name": "Bookmarks bar",
                    "type": "folder",
                    "children": [
                        {"name": "Rust", "type": "url", "url": "https://www.rust-lang.org"},
                        {"name": "Editors", "type": "folder", "children": [
                            {"name": "Visual Studio Code", "type": "url", "url": "https://code.visualstudio.com"},
                            {"name": "Sublime Text", "type": "url", "url": "https://www.sublimetext.com"},
                            {"type": "url", "url": "https://nameless.example"}
                        ]}
                    ]
                },
                "other": {"name": "Other bookmarks", "type": "folder", "children": [
                    {"name": "Verus", "type": "url", "url": "https://verus.example"}
                ]},
                "synced": {"name": "Mobile bookmarks", "type": "folder", "children": []},
                "trash": {"name": "Trash", "type": "folder", "children": [
                    {"name": "Gone", "type": "url", "url": "https://gone.example"}
                ]}
            },
            "version": 1
        }"#
}

fn browser_in(dir: &TempDir) -> Browser {
    Browser::new("linux")
        .expect("a browser")
        .with_profile_dir(dir.path().to_str().unwrap().to_string())
}

fn triples(links: &[Link]) -> Vec<(String, String, Option<String>)> {
    links
        .iter()
        .map(|link| (link.title.clone(), link.url.clone(), link.subtitle.clone()))
        .collect()
}

#[test]
fn bookmarks_are_read_with_the_path_of_their_folders() {
    let dir = tempdir().unwrap();
    let links = browser_in(&dir).bookmark_links(bookmarks_document()).unwrap();
    assert_eq!(
        triples(&links),
        vec![
            ("Rust".to_string(), "https://www.rust-lang.org".to_string(), Some("/Bookmarks bar".to_string())),
            (
                "Visual Studio Code".to_string(),
                "https://code.visualstudio.com".to_string(),
                Some("/Bookmarks bar/Editors".to_string())
            ),
            (
                "Sublime Text".to_string(),
                "https://www.sublimetext.com".to_string(),
                Some("/Bookmarks bar/Editors".to_string())
            ),
            ("Verus".to_string(), "https://verus.example".to_string(), Some("/Other bookmarks".to_string())),
        ]
    );
    for link in &links {
        assert_eq!(link.guid, "");
        assert_eq!(link.source, None);
        assert_eq!(link.score, None);
        assert_eq!(link.timestamp, Timestamp { secs: 0, nanos: 0 });
    }
}

#[test]
fn document_without_roots_has_no_bookmarks() {
    let dir = tempdir().unwrap();
    let browser = browser_in(&dir);
    assert!(browser.bookmark_links("{}").unwrap().is_empty());
    assert!(browser.bookmark_links(r#"{"roots": []}"#).unwrap().is_empty());
    assert!(browser.bookmark_links("[1, 2]").unwrap().is_empty());
    assert!(links_of_document(&parse("null")).is_empty());
    assert!(matches!(browser.bookmark_links("{"), Err(Error::Serde(_))));
    assert!(matches!(browser.search_bookmarks_directly("x", "not json"), Err(Error::Serde(_))));
}

#[test]
fn node_that_has_url_and_children_gives_both() {
    let node = parse(
        r#"{"name": "Both", "url": "https://both.example", "children": [
            {"name": "Child", "url": "https://child.example"}
        ]}"#,
    );
    let mut links = vec![Link::default()];
    traverse(&node, &mut links, "top", 3);
    assert_eq!(links.len(), 3);
    assert_eq!(
        triples(&links[1..]),
        vec![
            ("Both".to_string(), "https://both.example".to_string(), Some("top".to_string())),
            ("Child".to_string(), "https://child.example".to_string(), Some("top/Both".to_string())),
        ]
    );
}

#[test]
fn folders_are_followed_only_so_deep() {
    let node = parse(
        r#"{"name": "A", "children": [
            {"name": "a", "url": "https://a.example"},
            {"name": "B", "children": [
                {"name": "b", "url": "https://b.example"},
                {"name": "C", "children": [{"name": "c", "url": "https://c.example"}]}
            ]}
        ]}"#,
    );
    let titles = |depth: usize| {
        let mut links = Vec::new();
        traverse(&node, &mut links, "", depth);
        links.iter().map(|link| link.title.clone()).collect::<Vec<_>>()
    };
    assert_eq!(titles(0), Vec::<String>::new());
    assert_eq!(titles(1), vec!["a"]);
    assert_eq!(titles(2), vec!["a", "b"]);
    assert_eq!(titles(3), vec!["a", "b", "c"]);
}

#[test]
fn direct_search_ranks_by_fuzzy_score_of_title_and_subtitle() {
    let dir = tempdir().unwrap();
    let browser = browser_in(&dir);
    let found = browser.search_bookmarks_directly("vscode", bookmarks_document()).unwrap();
    assert_eq!(found.len(), 1);
    assert_eq!(found[0].title, "Visual Studio Code");

    let editors = browser.search_bookmarks_directly("editors", bookmarks_document()).unwrap();
    let titles: Vec<&str> = editors.iter().map(|link| link.title.as_str()).collect();
    assert_eq!(titles.len(), 2);
    assert!(titles.contains(&"Visual Studio Code") && titles.contains(&"Sublime Text"));
    let score = |link: &Link| {
        let text = format!("{} {}", link.title, link.subtitle.clone().unwrap_or_default());
        sublime_fuzzy::best_match("editors", &text).map(|m| m.score()).unwrap_or(0)
    };
    assert!(score(&editors[0]) >= score(&editors[1]));
    assert!(score(&editors[1]) > 0);

    assert!(browser.search_bookmarks_directly("qqqq", bookmarks_document()).unwrap().is_empty());
    assert!(browser.search_bookmarks_directly("", bookmarks_document()).unwrap().is_empty());
}

fn write_history(browser: &Browser) {
    let conn = rusqlite::Connection::open(browser.history_replica_path()).unwrap();
    conn.execute_batch(
        "CREATE TABLE urls (
            id INTEGER PRIMARY KEY, url TEXT, title TEXT,
            visit_count INTEGER, typed_count INTEGER, last_visit_time INTEGER
        );
        INSERT INTO urls VALUES (1, 'https://www.rust-lang.org', 'Rust', 5, 1, 300);
        INSERT INTO urls VALUES (2, 'https://www.wikipedia.org', 'Wikipedia', 9, 0, 100);
        INSERT INTO urls VALUES (3, 'https://untitled.example', NULL, 1, 0, 200);
        INSERT INTO urls VALUES (4, 'https://doc.rust-lang.org', 'Rust documentation', 2, 0, 400);",
    )
    .unwrap();
}

#[test]
fn history_is_read_oldest_visit_first() {
    let dir = tempdir().unwrap();
    let browser = browser_in(&dir);
    write_history(&browser);
    let links = browser.history_links().unwrap();
    let rows: Vec<(&str, &str, &str)> = links
        .iter()
        .map(|link| (link.guid.as_str(), link.url.as_str(), link.title.as_str()))
        .collect();
    assert_eq!(
        rows,
        vec![
            ("chrome-history-2", "https://www.wikipedia.org", "Wikipedia"),
            ("chrome-history-1", "https://www.rust-lang.org", "Rust"),
            ("chrome-history-4", "https://doc.rust-lang.org", "Rust documentation"),
        ]
    );
    assert!(links.iter().all(|link| link.score.is_none() && link.subtitle.is_none()));
    assert!(links.iter().all(|link| link.timestamp.is_valid()));
}

#[test]
fn history_is_searched_by_title_and_url() {
    let dir = tempdir().unwrap();
    let browser = browser_in(&dir);
    write_history(&browser);
    let found = browser.search_history_directly("rust").unwrap();
    let titles: Vec<&str> = found.iter().map(|link| link.title.as_str()).collect();
    assert_eq!(titles, vec!["Rust", "Rust documentation"]);
    assert!(found.iter().all(|link| link.score == Some(0)));
    assert!(browser.search_history_directly("nothing-like-it").unwrap().is_empty());
}

#[test]
fn missing_history_is_an_error_of_the_store() {
    let dir = tempdir().unwrap();
    let browser = browser_in(&dir).with_profile_dir("/no/such/directory".to_string());
    assert!(matches!(browser.history_links(), Err(Error::Rusqlite(_))));
    assert!(matches!(browser.search_history_directly("x"), Err(Error::Rusqlite(_))));
}

#[test]
fn bookmarks_and_history_go_into_the_cache() {
    let dir = tempdir().unwrap();
    let data = tempdir().unwrap();
    let browser = browser_in(&dir);
    write_history(&browser);
    let mut cache = Cache::builder()
        .with_data_dir(data.path().to_str().unwrap())
        .build()
        .unwrap();
    browser.cache_bookmarks(&mut cache, bookmarks_document()).unwrap();
    assert!(matches!(browser.cache_bookmarks(&mut cache, "["), Err(Error::Serde(_))));
    browser.cache_history(&mut cache).unwrap();
    let found = cache.search("Wikipedia").unwrap();
    assert_eq!(found[0].title, "Wikipedia");
    let found = cache.search("sublime").unwrap();
    assert_eq!(found[0].title, "Sublime Text");
    assert_eq!(found[0].subtitle, Some("/Bookmarks bar/Editors".to_string()));
}

#[test]
fn files_lie_in_the_profile() {
    let browser = Browser::new("linux").unwrap().with_profile_dir("/profiles/chrome".to_string());
    assert_eq!(browser.profile_dir(), "/profiles/chrome");
    assert_eq!(browser.bookmarks_path(), "/profiles/chrome/Bookmarks");
    assert_eq!(browser.history_path(), "/profiles/chrome/History");
    assert_eq!(browser.history_replica_path(), "/profiles/chrome/History.linkcache");
}

#[test]
fn chrome_default_profile_lies_below_the_home_directory() {
    let home = dirs::home_dir()
        .map(|dir| dir.to_str().unwrap().to_string())
        .unwrap_or_else(|| "/tmp".to_string());
    let join = |below: &str| linkcache::paths::join_path(&home, below);
    assert_eq!(
        Browser::default_profile_dir("macos").unwrap(),
        join("Library/Application Support/Google/Chrome/Default")
    );
    assert_eq!(Browser::default_profile_dir("linux").unwrap(), join(".config/google-chrome/Default"));
    assert_eq!(
        Browser::default_profile_dir("windows").unwrap(),
        join("AppData/Local/Google/Chrome/User Data/Default")
    );
    assert_eq!(Browser::default_profile_dir("beos").unwrap(), join(".config/google-chrome/Default"));
}

#[test]
fn links_are_ranked_directly_by_one_match_of_the_whole_query() {
    let links = links_of_document(&parse(bookmarks_document()));
    assert_eq!(links.len(), 4);
    let found = rank_directly("rust bar", &links);
    let titles: Vec<&str> = found.iter().map(|link| link.title.as_str()).collect();
    assert_eq!(titles, vec!["Rust", "Verus"]);
    assert!(rank_directly("bar rust", &links).is_empty());
    let long: String = (0..257u32).map(|i| char::from_u32(0x4E00 + i).unwrap()).collect();
    let mut with_long = links.clone();
    with_long[0].title = long.clone();
    assert!(rank_directly(&long, &with_long).is_empty());
    assert_eq!(rank_directly(&long[..3 * 256], &with_long).len(), 1);
}

#[test]
fn pattern_holds_the_query_between_percent_signs() {
    assert_eq!(like_pattern("rust"), "%rust%");
    assert_eq!(like_pattern(""), "%%");
}

#[test]
fn roots_are_read_in_the_order_of_their_names() {
    let dir = tempdir().unwrap();
    let text = r#"{"roots": {
        "synced": {"name": "S", "children": [{"name": "s", "url": "https://s.example"}]},
        "other": {"name": "O", "children": [{"name": "o", "url": "https://o.example"}]},
        "bookmark_bar": {"name": "B", "children": [{"name": "b", "url": "https://b.example"}]}
    }}"#;
    let links = browser_in(&dir).bookmark_links(text).unwrap();
    let titles: Vec<&str> = links.iter().map(|link| link.title.as_str()).collect();
    assert_eq!(titles, vec!["b", "o", "s"]);
}

#[test]
fn deeply_nested_text_is_no_json_for_the_cache() {
    let dir = tempdir().unwrap();
    let data = tempdir().unwrap();
    let mut cache = Cache::builder().with_data_dir(data.path().to_str().unwrap()).build().unwrap();
    let deep = format!("{}{}", "[".repeat(300), "]".repeat(300));
    assert!(matches!(
        browser_in(&dir).cache_bookmarks(&mut cache, &deep),
        Err(Error::Serde(_)) | Err(Error::Parse(_))
    ));
}
