//! Writing a sidebar back as a document: what was read, written and read
//! again is what was read.

use crate::arc::decode::{
    all_texts, bookmark_of, classify, classify_all, container_of, folder_of, folder_shaped,
    optional_flag, optional_number, optional_text, required_text, required_texts, sidebar_of,
    space_entries, space_entry, space_of, state_of, tab_data_of, tab_of, StateView,
};
use crate::arc::sidebar::{
    Bookmark, BookmarkView, Folder, FolderView, Sidebar, SidebarContainer, SidebarContainerView,
    SidebarItemType, SidebarItemView, SidebarState, SidebarTabData, SidebarTabDataView, Space,
    SpaceType, SpaceTypeView, SpaceView, Tab, TabView,
};
use crate::json::{
    lemma_member_found, lemma_member_missing, member_views_of, views_of, Json, JsonView, Number,
    NumberView,
};
use crate::text::texts_of;
use vstd::prelude::*;

verus! {

/// A text that may be missing as a JSON value: the string, or null.
pub open spec fn optional_json(text: Option<Seq<char>>) -> JsonView {
    match text {
        Some(text) => JsonView::String(text),
        None => JsonView::Null,
    }
}

/// A truth value that may be missing as a JSON value.
pub open spec fn flag_json(flag: Option<bool>) -> JsonView {
    match flag {
        Some(flag) => JsonView::Bool(flag),
        None => JsonView::Null,
    }
}

/// A number that may be missing as a JSON value.
pub open spec fn number_json(number: Option<NumberView>) -> JsonView {
    match number {
        Some(number) => JsonView::Number(number),
        None => JsonView::Null,
    }
}

/// A list of texts as a JSON array of strings.
pub open spec fn texts_json(texts: Seq<Seq<char>>) -> JsonView {
    JsonView::Array(Seq::new(texts.len(), |i: int| JsonView::String(texts[i])))
}

/// A saved page as a JSON value.
pub open spec fn tab_json(tab: TabView) -> JsonView {
    JsonView::Object(
        seq![
            ("savedTitle"@, optional_json(tab.saved_title)),
            ("savedURL"@, optional_json(tab.saved_url)),
        ],
    )
}

/// The payload of a bookmark as a JSON value.
pub open spec fn tab_data_json(data: SidebarTabDataView) -> JsonView {
    JsonView::Object(seq![("tab"@, tab_json(data.tab))])
}

/// A bookmark as a JSON value.
pub open spec fn bookmark_json(bookmark: BookmarkView) -> JsonView {
    JsonView::Object(
        seq![
            ("id"@, JsonView::String(bookmark.id)),
            ("title"@, optional_json(bookmark.title)),
            ("data"@, tab_data_json(bookmark.data)),
            ("parentID"@, optional_json(bookmark.parent_id)),
        ],
    )
}

/// A folder as a JSON value.
pub open spec fn folder_json(folder: FolderView) -> JsonView {
    JsonView::Object(
        seq![
            ("id"@, JsonView::String(folder.id)),
            ("title"@, optional_json(folder.title)),
            ("data"@, folder.data),
            ("parentID"@, optional_json(folder.parent_id)),
            ("childrenIds"@, texts_json(folder.children_ids)),
            ("isUnread"@, flag_json(folder.is_unread)),
            ("originatingDevice"@, optional_json(folder.originating_device)),
            ("createdAt"@, number_json(folder.created_at)),
        ],
    )
}

/// A space as a JSON value.
pub open spec fn space_json(space: SpaceView) -> JsonView {
    JsonView::Object(
        seq![
            ("id"@, JsonView::String(space.id)),
            ("title"@, optional_json(space.title)),
            ("customInfo"@, space.custom_info),
            ("newContainerIDs"@, space.new_container_ids),
            ("profile"@, space.profile),
            ("containerIDs"@, space.container_ids),
        ],
    )
}

/// An entry of the list of items as a JSON value: a value that was kept is
/// written as it was.
pub open spec fn item_json(item: SidebarItemView) -> JsonView {
    match item {
        SidebarItemView::Folder(folder) => folder_json(folder),
        SidebarItemView::Bookmark(bookmark) => bookmark_json(bookmark),
        SidebarItemView::Value(value) => value,
    }
}

/// An entry of the list of spaces as a JSON value: a value that was kept is
/// written as it was.
pub open spec fn space_entry_json(entry: SpaceTypeView) -> JsonView {
    match entry {
        SpaceTypeView::Space(space) => space_json(space),
        SpaceTypeView::Value(value) => value,
    }
}

/// A container as a JSON value: a value that was kept is written as it was.
pub open spec fn container_json(container: SidebarContainerView) -> JsonView {
    match container {
        SidebarContainerView::SpacesAndItems(inner) => JsonView::Object(
            seq![
                (
                    "spaces"@,
                    JsonView::Array(
                        Seq::new(inner.spaces.len(), |i: int| space_entry_json(inner.spaces[i])),
                    ),
                ),
                ("topAppsContainerIDs"@, inner.top_apps_container_ids),
                (
                    "items"@,
                    JsonView::Array(Seq::new(inner.items.len(), |i: int| item_json(inner.items[i]))),
                ),
            ],
        ),
        SidebarContainerView::Value(value) => value,
    }
}

/// The containers of a sidebar as a JSON value.
pub open spec fn sidebar_json(containers: Seq<SidebarContainerView>) -> JsonView {
    JsonView::Object(
        seq![
            (
                "containers"@,
                JsonView::Array(Seq::new(containers.len(), |i: int| container_json(containers[i]))),
            ),
        ],
    )
}

/// A saved state as a JSON value.
pub open spec fn state_json(state: StateView) -> JsonView {
    JsonView::Object(
        seq![
            ("sidebarSyncState"@, state.sidebar_sync_state),
            ("version"@, JsonView::Number(NumberView::Int(state.version))),
            ("sidebar"@, sidebar_json(state.containers)),
            ("firebaseSyncState"@, state.firebase_sync_state),
        ],
    )
}

/// Reading a written page gives the page.
pub proof fn lemma_tab_round_trip(tab: TabView)
    ensures
        tab_of(tab_json(tab)) == Some(tab),
{
    reveal_strlit("savedTitle");
    reveal_strlit("savedURL");
    let value = tab_json(tab);
    let members = value->Object_0;
    assert("savedTitle"@.len() == 10);
    assert("savedURL"@.len() == 8);
    lemma_member_found(members, 0);
    lemma_member_found(members, 1);
    assert(optional_text(value, "savedTitle"@) == Some(tab.saved_title));
    assert(optional_text(value, "savedURL"@) == Some(tab.saved_url));
}

/// Reading a written bookmark gives the bookmark, and as an entry of the
/// list of items it is told to be that bookmark.
pub proof fn lemma_bookmark_round_trip(bookmark: BookmarkView)
    ensures
        bookmark_of(bookmark_json(bookmark)) == Some(bookmark),
        classify(bookmark_json(bookmark)) == SidebarItemView::Bookmark(bookmark),
{
    reveal_strlit("id");
    reveal_strlit("title");
    reveal_strlit("data");
    reveal_strlit("parentID");
    reveal_strlit("tab");
    reveal_strlit("list");
    reveal_strlit("itemContainer");
    assert("id"@.len() == 2);
    assert("title"@.len() == 5);
    assert("data"@.len() == 4);
    assert("parentID"@.len() == 8);
    assert("tab"@.len() == 3);
    assert("list"@.len() == 4);
    assert("itemContainer"@.len() == 13);
    lemma_tab_round_trip(bookmark.data.tab);
    let value = bookmark_json(bookmark);
    let members = value->Object_0;
    let payload = tab_data_json(bookmark.data);
    let inner = payload->Object_0;
    lemma_member_found(members, 0);
    lemma_member_found(members, 1);
    lemma_member_found(members, 2);
    lemma_member_found(members, 3);
    lemma_member_found(inner, 0);
    lemma_member_missing(inner, "list"@);
    lemma_member_missing(inner, "itemContainer"@);
    assert(required_text(value, "id"@) == Some(bookmark.id));
    assert(optional_text(value, "title"@) == Some(bookmark.title));
    assert(optional_text(value, "parentID"@) == Some(bookmark.parent_id));
    assert(value.member("data"@) == Some(payload));
    assert(tab_data_of(payload) == Some(bookmark.data));
    lemma_two_steps(value, "data"@, "list"@);
    lemma_two_steps(value, "data"@, "itemContainer"@);
    lemma_two_steps(value, "data"@, "tab"@);
}

/// Two steps into a value are a step and then another.
proof fn lemma_two_steps(value: JsonView, first: Seq<char>, second: Seq<char>)
    ensures
        value.at_path(seq![first, second]) == match value.member(first) {
            Some(inner) => inner.member(second),
            None => None,
        },
{
    reveal_with_fuel(JsonView::at_path, 3);
    let path = seq![first, second];
    assert(path.skip(1) =~= seq![second]);
    assert(path.skip(1).skip(1) =~= Seq::<Seq<char>>::empty());
}

/// Reading a written folder gives the folder.
pub proof fn lemma_folder_round_trip(folder: FolderView)
    ensures
        folder_of(folder_json(folder)) == Some(folder),
        folder_json(folder).member("data"@) == Some(folder.data),
{
    reveal_strlit("id");
    reveal_strlit("title");
    reveal_strlit("data");
    reveal_strlit("parentID");
    reveal_strlit("childrenIds");
    reveal_strlit("isUnread");
    reveal_strlit("originatingDevice");
    reveal_strlit("createdAt");
    assert("id"@.len() == 2);
    assert("title"@.len() == 5);
    assert("data"@.len() == 4);
    assert("parentID"@.len() == 8);
    assert("childrenIds"@.len() == 11);
    assert("isUnread"@.len() == 8);
    assert("originatingDevice"@.len() == 17);
    assert("createdAt"@.len() == 9);
    assert("parentID"@[0] == 'p');
    assert("isUnread"@[0] == 'i');
    let value = folder_json(folder);
    let members = value->Object_0;
    lemma_member_found(members, 0);
    lemma_member_found(members, 1);
    lemma_member_found(members, 2);
    lemma_member_found(members, 3);
    lemma_member_found(members, 4);
    lemma_member_found(members, 5);
    lemma_member_found(members, 6);
    lemma_member_found(members, 7);
    let children = texts_json(folder.children_ids)->Array_0;
    assert(all_texts(children) is Some);
    assert(all_texts(children)->0 =~= folder.children_ids);
    assert(required_text(value, "id"@) == Some(folder.id));
    assert(optional_text(value, "title"@) == Some(folder.title));
    assert(optional_text(value, "parentID"@) == Some(folder.parent_id));
    assert(required_texts(value, "childrenIds"@) == Some(folder.children_ids));
    assert(optional_flag(value, "isUnread"@) == Some(folder.is_unread));
    assert(optional_text(value, "originatingDevice"@) == Some(folder.originating_device));
    assert(optional_number(value, "createdAt"@) == Some(folder.created_at));
}

/// Reading a written space gives the space.
pub proof fn lemma_space_round_trip(space: SpaceView)
    ensures
        space_of(space_json(space)) == Some(space),
{
    reveal_strlit("id");
    reveal_strlit("title");
    reveal_strlit("customInfo");
    reveal_strlit("newContainerIDs");
    reveal_strlit("profile");
    reveal_strlit("containerIDs");
    assert("id"@.len() == 2);
    assert("title"@.len() == 5);
    assert("customInfo"@.len() == 10);
    assert("newContainerIDs"@.len() == 15);
    assert("profile"@.len() == 7);
    assert("containerIDs"@.len() == 12);
    let value = space_json(space);
    let members = value->Object_0;
    lemma_member_found(members, 0);
    lemma_member_found(members, 1);
    lemma_member_found(members, 2);
    lemma_member_found(members, 3);
    lemma_member_found(members, 4);
    lemma_member_found(members, 5);
    assert(required_text(value, "id"@) == Some(space.id));
    assert(optional_text(value, "title"@) == Some(space.title));
}

/// An entry of the list of items that was read, written and read again is
/// told to be what it was told to be at first. A value that fits no shape is
/// written as it was, with everything in it.
pub proof fn lemma_item_round_trip(value: JsonView)
    ensures
        classify(item_json(classify(value))) == classify(value),
        classify(value) is Value ==> item_json(classify(value)) == value,
{
    match classify(value) {
        SidebarItemView::Folder(folder) => {
            lemma_folder_round_trip(folder);
            let written = folder_json(folder);
            lemma_two_steps(value, "data"@, "list"@);
            lemma_two_steps(value, "data"@, "itemContainer"@);
            lemma_two_steps(written, "data"@, "list"@);
            lemma_two_steps(written, "data"@, "itemContainer"@);
            assert(folder.data == value.member("data"@)->0);
            assert(folder_shaped(written));
        },
        SidebarItemView::Bookmark(bookmark) => {
            lemma_bookmark_round_trip(bookmark);
        },
        SidebarItemView::Value(_) => {},
    }
}

/// An entry of the list of spaces that was read, written and read again is
/// what it was at first.
pub proof fn lemma_space_entry_round_trip(value: JsonView)
    ensures
        space_entry(space_entry_json(space_entry(value))) == space_entry(value),
        space_entry(value) is Value ==> space_entry_json(space_entry(value)) == value,
{
    match space_entry(value) {
        SpaceTypeView::Space(space) => {
            lemma_space_round_trip(space);
        },
        SpaceTypeView::Value(_) => {},
    }
}

/// A container that was read, written and read again is what it was at
/// first.
pub proof fn lemma_container_round_trip(value: JsonView)
    ensures
        container_of(container_json(container_of(value))) == container_of(value),
        container_of(value) is Value ==> container_json(container_of(value)) == value,
{
    match container_of(value) {
        SidebarContainerView::SpacesAndItems(inner) => {
            reveal_strlit("spaces");
            reveal_strlit("topAppsContainerIDs");
            reveal_strlit("items");
            assert("spaces"@.len() == 6);
            assert("topAppsContainerIDs"@.len() == 19);
            assert("items"@.len() == 5);
            let written = container_json(container_of(value));
            let members = written->Object_0;
            lemma_member_found(members, 0);
            lemma_member_found(members, 1);
            lemma_member_found(members, 2);
            let raw_spaces = value.member("spaces"@)->0->Array_0;
            let raw_items = value.member("items"@)->0->Array_0;
            let spaces = Seq::new(inner.spaces.len(), |i: int| space_entry_json(inner.spaces[i]));
            let items = Seq::new(inner.items.len(), |i: int| item_json(inner.items[i]));
            assert forall|i: int| 0 <= i < spaces.len() implies space_entry(#[trigger] spaces[i])
                == inner.spaces[i] by {
                lemma_space_entry_round_trip(raw_spaces[i]);
            }
            assert forall|i: int| 0 <= i < items.len() implies classify(#[trigger] items[i])
                == inner.items[i] by {
                lemma_item_round_trip(raw_items[i]);
            }
            assert(space_entries(spaces) =~= inner.spaces);
            assert(classify_all(items) =~= inner.items);
        },
        SidebarContainerView::Value(_) => {},
    }
}

/// A sidebar that was read, written and read again is what it was at first.
pub proof fn lemma_sidebar_round_trip(value: JsonView)
    requires
        sidebar_of(value) is Some,
    ensures
        sidebar_of(sidebar_json(sidebar_of(value)->0)) == sidebar_of(value),
{
    reveal_strlit("containers");
    let containers = sidebar_of(value)->0;
    let raw = value.member("containers"@)->0->Array_0;
    let written = sidebar_json(containers);
    lemma_member_found(written->Object_0, 0);
    let again = Seq::new(containers.len(), |i: int| container_json(containers[i]));
    assert forall|i: int| 0 <= i < again.len() implies container_of(#[trigger] again[i])
        == containers[i] by {
        lemma_container_round_trip(raw[i]);
    }
    assert(sidebar_of(written)->0 =~= containers);
}

/// A saved state that was read, written and read again is what it was at
/// first.
pub proof fn lemma_state_round_trip(value: JsonView)
    requires
        state_of(value) is Some,
    ensures
        state_of(state_json(state_of(value)->0)) == state_of(value),
{
    reveal_strlit("sidebarSyncState");
    reveal_strlit("version");
    reveal_strlit("sidebar");
    reveal_strlit("firebaseSyncState");
    assert("sidebarSyncState"@.len() == 16);
    assert("version"@.len() == 7);
    assert("sidebar"@.len() == 7);
    assert("firebaseSyncState"@.len() == 17);
    assert("version"@[0] == 'v');
    assert("sidebar"@[0] == 's');
    let state = state_of(value)->0;
    let written = state_json(state);
    let members = written->Object_0;
    lemma_member_found(members, 0);
    lemma_member_found(members, 1);
    lemma_member_found(members, 2);
    lemma_member_found(members, 3);
    lemma_sidebar_round_trip(value.member("sidebar"@)->0);
}

fn optional_to_json(text: &Option<String>) -> (r: Json)
    ensures
        r@ == optional_json(text.deep_view()),
{
    match text {
        Some(text) => Json::String(text.clone()),
        None => Json::Null,
    }
}

fn object(members: Vec<(String, Json)>) -> (r: Json)
    ensures
        r@ == JsonView::Object(member_views_of(members@)),
{
    let r = Json::Object(members);
    assert(r@->Object_0 =~= member_views_of(members@));
    r
}

fn array(items: Vec<Json>) -> (r: Json)
    ensures
        r@ == JsonView::Array(views_of(items@)),
{
    let r = Json::Array(items);
    assert(r@->Array_0 =~= views_of(items@));
    r
}

impl Tab {
    /// Writes the page as a JSON value.
    pub fn to_json(&self) -> (r: Json)
        ensures
            r@ == tab_json(self@),
    {
        let members = vec![
            ("savedTitle".to_owned(), optional_to_json(&self.saved_title)),
            ("savedURL".to_owned(), optional_to_json(&self.saved_url)),
        ];
        assert(member_views_of(members@) =~= tab_json(self@)->Object_0);
        object(members)
    }
}

impl SidebarTabData {
    /// Writes the payload as a JSON value.
    pub fn to_json(&self) -> (r: Json)
        ensures
            r@ == tab_data_json(self@),
    {
        let members = vec![("tab".to_owned(), self.tab.to_json())];
        assert(member_views_of(members@) =~= tab_data_json(self@)->Object_0);
        object(members)
    }
}

impl Bookmark {
    /// Writes the bookmark as a JSON value.
    pub fn to_json(&self) -> (r: Json)
        ensures
            r@ == bookmark_json(self@),
    {
        let members = vec![
            ("id".to_owned(), Json::String(self.id.clone())),
            ("title".to_owned(), optional_to_json(&self.title)),
            ("data".to_owned(), self.data.to_json()),
            ("parentID".to_owned(), optional_to_json(&self.parent_id)),
        ];
        assert(member_views_of(members@) =~= bookmark_json(self@)->Object_0);
        object(members)
    }
}

impl Folder {
    /// Writes the folder as a JSON value.
    pub fn to_json(&self) -> (r: Json)
        ensures
            r@ == folder_json(self@),
    {
        let mut children: Vec<Json> = Vec::new();
        let mut i: usize = 0;
        while i < self.children_ids.len()
            invariant
                i <= self.children_ids.len(),
                children.len() == i,
                forall|k: int|
                    0 <= k < i ==> (#[trigger] children@[k])@ == JsonView::String(
                        self.children_ids@[k]@,
                    ),
            decreases self.children_ids.len() - i,
        {
            children.push(Json::String(self.children_ids[i].clone()));
            i += 1;
        }
        assert(views_of(children@) =~= texts_json(texts_of(self.children_ids@))->Array_0);
        let members = vec![
            ("id".to_owned(), Json::String(self.id.clone())),
            ("title".to_owned(), optional_to_json(&self.title)),
            ("data".to_owned(), self.data.clone()),
            ("parentID".to_owned(), optional_to_json(&self.parent_id)),
            ("childrenIds".to_owned(), array(children)),
            (
                "isUnread".to_owned(),
                match self.is_unread {
                    Some(flag) => Json::Bool(flag),
                    None => Json::Null,
                },
            ),
            ("originatingDevice".to_owned(), optional_to_json(&self.originating_device)),
            (
                "createdAt".to_owned(),
                match &self.created_at {
                    Some(number) => Json::Number(number.clone()),
                    None => Json::Null,
                },
            ),
        ];
        assert(member_views_of(members@) =~= folder_json(self@)->Object_0);
        object(members)
    }
}

impl Space {
    /// Writes the space as a JSON value.
    pub fn to_json(&self) -> (r: Json)
        ensures
            r@ == space_json(self@),
    {
        let members = vec![
            ("id".to_owned(), Json::String(self.id.clone())),
            ("title".to_owned(), optional_to_json(&self.title)),
            ("customInfo".to_owned(), self.custom_info.clone()),
            ("newContainerIDs".to_owned(), self.new_container_ids.clone()),
            ("profile".to_owned(), self.profile.clone()),
            ("containerIDs".to_owned(), self.container_ids.clone()),
        ];
        assert(member_views_of(members@) =~= space_json(self@)->Object_0);
        object(members)
    }
}

impl SidebarItemType {
    /// Writes the entry as a JSON value; a value that was kept is written as
    /// it was.
    pub fn to_json(&self) -> (r: Json)
        ensures
            r@ == item_json(self@),
    {
        match self {
            SidebarItemType::Folder(folder) => folder.to_json(),
            SidebarItemType::Bookmark(bookmark) => bookmark.to_json(),
            SidebarItemType::Value(value) => value.clone(),
        }
    }
}

impl SpaceType {
    /// Writes the entry as a JSON value; a value that was kept is written as
    /// it was.
    pub fn to_json(&self) -> (r: Json)
        ensures
            r@ == space_entry_json(self@),
    {
        match self {
            SpaceType::Space(space) => space.to_json(),
            SpaceType::Value(value) => value.clone(),
        }
    }
}

impl SidebarContainer {
    /// Writes the container as a JSON value; a value that was kept is written
    /// as it was.
    pub fn to_json(&self) -> (r: Json)
        ensures
            r@ == container_json(self@),
    {
        match self {
            SidebarContainer::SpacesAndItems(inner) => {
                let mut spaces: Vec<Json> = Vec::new();
                let mut i: usize = 0;
                while i < inner.spaces.len()
                    invariant
                        i <= inner.spaces.len(),
                        spaces.len() == i,
                        forall|k: int|
                            0 <= k < i ==> (#[trigger] spaces@[k])@ == space_entry_json(
                                inner.spaces@[k]@,
                            ),
                    decreases inner.spaces.len() - i,
                {
                    spaces.push(inner.spaces[i].to_json());
                    i += 1;
                }
                let mut items: Vec<Json> = Vec::new();
                let mut k: usize = 0;
                while k < inner.items.len()
                    invariant
                        k <= inner.items.len(),
                        items.len() == k,
                        forall|j: int|
                            0 <= j < k ==> (#[trigger] items@[j])@ == item_json(inner.items@[j]@),
                    decreases inner.items.len() - k,
                {
                    items.push(inner.items[k].to_json());
                    k += 1;
                }
                let ghost wanted = container_json(self@)->Object_0;
                assert(views_of(spaces@) =~= wanted[0].1->Array_0);
                assert(views_of(items@) =~= wanted[2].1->Array_0);
                let members = vec![
                    ("spaces".to_owned(), array(spaces)),
                    ("topAppsContainerIDs".to_owned(), inner.top_apps_container_ids.clone()),
                    ("items".to_owned(), array(items)),
                ];
                assert(member_views_of(members@) =~= wanted);
                object(members)
            },
            SidebarContainer::Value(value) => value.clone(),
        }
    }
}

impl Sidebar {
    /// Writes the sidebar as a JSON value.
    pub fn to_json(&self) -> (r: Json)
        ensures
            r@ == sidebar_json(self@),
    {
        let mut containers: Vec<Json> = Vec::new();
        let mut i: usize = 0;
        while i < self.containers.len()
            invariant
                i <= self.containers.len(),
                containers.len() == i,
                forall|k: int|
                    0 <= k < i ==> (#[trigger] containers@[k])@ == container_json(
                        self.containers@[k]@,
                    ),
            decreases self.containers.len() - i,
        {
            containers.push(self.containers[i].to_json());
            i += 1;
        }
        let ghost wanted = sidebar_json(self@)->Object_0;
        assert(views_of(containers@) =~= wanted[0].1->Array_0);
        let members = vec![("containers".to_owned(), array(containers))];
        assert(member_views_of(members@) =~= wanted);
        object(members)
    }
}

impl SidebarState {
    /// Writes the saved state as a JSON value. The nodes that were recorded
    /// for lookups are no part of it.
    pub fn to_json(&self) -> (r: Json)
        ensures
            r@ == state_json(self.document()),
    {
        let members = vec![
            ("sidebarSyncState".to_owned(), self.sidebar_sync_state.clone()),
            ("version".to_owned(), Json::Number(Number::Int(self.version))),
            ("sidebar".to_owned(), self.sidebar.to_json()),
            ("firebaseSyncState".to_owned(), self.firebase_sync_state.clone()),
        ];
        assert(member_views_of(members@) =~= state_json(self.document())->Object_0);
        object(members)
    }
}

} // verus!
