use linkcache::arc::sidebar::SidebarState;
use linkcache::arc::Browser;
use linkcache::error::Error;
use linkcache::link::Link;

fn bookmark(id: &str, title: &str, url: &str, parent: &str) -> String {
    format!(
        r#"{{"id":"{}","title":null,"data":{{"tab":{{"savedTitle":"{}","savedURL":"{}"}}}},"parentID":"{}"}}"#,
        id, title, url, parent
    )
}

fn storable_sidebar() -> String {
    let mut items = vec![
        r#""c-1""#.to_string(),
        r#"{"id":"c-1","title":null,"data":{"itemContainer":{"containerType":{"spaceItems":{"_0":"space-work"}}}},"parentID":null,"childrenIds":["areas","loose"]}"#.to_string(),
        r#"{"id":"areas","title":"Areas","data":{"list":{}},"parentID":"c-1","childrenIds":["alfred"]}"#.to_string(),
        r#"{"id":"alfred","title":"Alfred","data":{"list":{}},"parentID":"areas","childrenIds":["b-0"]}"#.to_string(),
        bookmark(
            "b-0",
            "Script Filter JSON Format",
            "https://www.alfredapp.com/help/workflows/inputs/script-filter/json/",
            "alfred",
        ),
        bookmark("loose", "Loose", "https://loose.example", "c-1"),
        r#"{"id":"orphan","title":"Named by hand","data":{"tab":{"savedTitle":"Saved","savedURL":"https://orphan.example"}}}"#.to_string(),
        r#"{"id":"lost","title":null,"data":{"tab":{}},"parentID":"nowhere"}"#.to_string(),
        r#"{"broken": true}"#.to_string(),
    ];
    for i in 0..5 {
        items.push(bookmark(
            &format!("b-{}", i + 1),
            &format!("Page {}", i + 1),
            &format!("https://pages.example/{}", i + 1),
            "areas",
        ));
    }
    let text = format!(
        r#"{{
            "sidebarSyncState": {{}},
            "version": 1,
            "firebaseSyncState": {{}},
            "sidebar": {{ "containers": [
                {{ "global": {{}} }},
                {{ "spaces": ["space-work", {{"id":"space-work","title":"Work","customInfo":{{}},"newContainerIDs":[],"profile":{{}},"containerIDs":["pinned","c-1"]}}],
                   "topAppsContainerIDs": [],
                   "items": [{}] }}
            ] }}
        }}"#,
        items.join(",")
    );
    text
}

fn browser_state() -> Result<SidebarState, Error> {
    test_browser().sidebar_json(&storable_sidebar())
}

fn test_browser() -> Browser {
    Browser::new("macos").with_profile_dir("./test_data".to_string())
}

#[test]
fn test_sidebar_links() -> Result<(), Error> {
    let browser = test_browser();
    let links = browser.sidebar_links(&storable_sidebar())?;

    for link in &links {
        println!("{}: {}", link.title, link.url);
    }

    assert_eq!(links.len(), 9);
    let script_filter_link = links.first().unwrap();
    assert_eq!(script_filter_link.title, "Script Filter JSON Format");
    assert_eq!(
        script_filter_link.url,
        "https://www.alfredapp.com/help/workflows/inputs/script-filter/json/"
    );
    assert_eq!(
        script_filter_link.subtitle,
        Some("Work / Areas / Alfred".to_string())
    );
    Ok(())
}

#[test]
fn browser_test_storable_sidebar() -> Result<(), Error> {
    let browser = Browser::new("macos").with_profile_dir("./test_data".to_string());
    let links = browser.sidebar_links(&storable_sidebar())?;
    for link in links {
        println!("{}: {}", link.title, link.url);
    }
    Ok(())
}

#[test]
fn arc_test_storable_sidebar() -> Result<(), Error> {
    let browser = Browser::new("linux").with_profile_dir("./test_data".to_string());
    let links = browser.sidebar_links(&storable_sidebar())?;
    for link in links {
        println!("{}: {}", link.title, link.url);
    }
    Ok(())
}

#[test]
fn test_space_title_map() -> Result<(), Error> {
    let state = browser_state()?;
    let space_titles = state.space_title_map();
    for (id, title) in &space_titles {
        println!("{}: {}", id, title);
    }
    assert_eq!(space_titles, vec![("space-work".to_string(), "Work".to_string())]);
    Ok(())
}

#[test]
fn test_folder_title_map() -> Result<(), Error> {
    let state = browser_state()?;
    let folder_titles = state.folder_title_map();
    for (id, title) in &folder_titles {
        println!("{}: {}", id, title);
    }
    assert_eq!(
        folder_titles,
        vec![
            ("c-1".to_string(), String::new()),
            ("areas".to_string(), "Areas".to_string()),
            ("alfred".to_string(), "Alfred".to_string()),
        ]
    );
    Ok(())
}

fn by_title<'a>(links: &'a [Link], title: &str) -> &'a Link {
    links.iter().find(|link| link.title == title).expect("a link of that title")
}

#[test]
fn links_carry_guid_title_and_breadcrumb() {
    let links = test_browser().sidebar_links(&storable_sidebar()).unwrap();

    let loose = by_title(&links, "Loose");
    assert_eq!(loose.guid, "arc-https://loose.example");
    assert_eq!(loose.url, "https://loose.example");
    assert_eq!(loose.subtitle, Some("Work".to_string()));
    assert_eq!(loose.source, None);
    assert_eq!(loose.score, None);
    assert!(loose.timestamp.is_valid());

    let orphan = by_title(&links, "Named by hand");
    assert_eq!(orphan.subtitle, None);

    let lost = by_title(&links, "");
    assert_eq!(lost.url, "");
    assert_eq!(lost.guid, "arc-");
    assert_eq!(lost.subtitle, None);

    let page = by_title(&links, "Page 3");
    assert_eq!(page.subtitle, Some("Work / Areas".to_string()));
}

#[test]
fn document_that_is_no_sidebar_is_refused() {
    assert!(matches!(test_browser().sidebar_links(r#"{"version": 1}"#), Err(Error::Parse(_))));
    assert!(matches!(test_browser().sidebar_links(r#"{"version": 1"#), Err(Error::Serde(_))));
    assert!(matches!(test_browser().sidebar_json("[]"), Err(Error::Parse(_))));
    assert!(matches!(test_browser().sidebar_json(""), Err(Error::Serde(_))));
}

#[test]
fn arc_default_profile_lies_below_the_home_directory() {
    let home = dirs::home_dir()
        .map(|dir| dir.to_str().unwrap().to_string())
        .unwrap_or_else(|| "/tmp".to_string());
    let join = |below: &str| linkcache::paths::join_path(&home, below);
    assert_eq!(Browser::default_profile_dir("macos"), join("Library/Application Support/Arc"));
    assert_eq!(Browser::default_profile_dir("linux"), join(".config/arc"));
    assert_eq!(Browser::default_profile_dir("windows"), join("AppData/Local/Arc"));
    assert_eq!(Browser::default_profile_dir("plan9"), join(".config/arc"));
    assert_eq!(Browser::new("macos").profile_dir(), &join("Library/Application Support/Arc"));
}

#[test]
fn sidebar_file_lies_in_the_profile() {
    let browser = Browser::new("linux").with_profile_dir("/profiles/arc".to_string());
    assert_eq!(browser.profile_dir(), "/profiles/arc");
    assert_eq!(browser.sidebar_path(), "/profiles/arc/StorableSidebar.json");
}

#[test]
fn bookmark_below_a_parentless_bookmark_has_no_subtitle() {
    let text = r#"{
        "sidebarSyncState": {}, "version": 1, "firebaseSyncState": {},
        "sidebar": { "containers": [ { "spaces": [], "topAppsContainerIDs": [], "items": [
            {"id":"","title":"Ghost","data":{"list":{}},"parentID":null,"childrenIds":[]},
            {"id":"top","title":"Top","data":{"tab":{"savedURL":"https://top.example"}}},
            {"id":"below","title":"Below","data":{"tab":{"savedURL":"https://below.example"}},"parentID":"top"}
        ] } ] }
    }"#;
    let links = test_browser().sidebar_links(text).unwrap();
    assert_eq!(links.len(), 2);
    assert_eq!(by_title(&links, "Top").subtitle, None);
    assert_eq!(by_title(&links, "Below").subtitle, None);
}
