//! Reading a sidebar document: each entry is told apart by the shape of its
//! payload, and an entry that fits no shape is kept as it was.

use crate::arc::sidebar::{
    Bookmark, BookmarkView, Folder, FolderView, ItemMap, Sidebar,
    SidebarContainer, SidebarContainerView, SidebarItemType, SidebarItemView,
    SidebarSpacesAndItemsContainer, SidebarState, SidebarTabData, SidebarTabDataView, Space,
    SpaceType, SpaceTypeView, SpaceView, SpacesAndItemsView, Tab, TabView,
};
use crate::error::Error;
use crate::json::{views_of, Json, JsonView, Number, NumberView};
use crate::text::texts_of;
use vstd::prelude::*;

verus! {

/// The text of the member `key`, which must be there and be a string.
pub open spec fn required_text(value: JsonView, key: Seq<char>) -> Option<Seq<char>> {
    match value.member(key) {
        Some(JsonView::String(text)) => Some(text),
        _ => None,
    }
}

/// The text of the member `key`, which may be missing or null; `None` if it
/// is there and is neither a string nor null.
pub open spec fn optional_text(value: JsonView, key: Seq<char>) -> Option<Option<Seq<char>>> {
    match value.member(key) {
        None => Some(None),
        Some(JsonView::Null) => Some(None),
        Some(JsonView::String(text)) => Some(Some(text)),
        Some(_) => None,
    }
}

/// The truth value of the member `key`, which may be missing or null.
pub open spec fn optional_flag(value: JsonView, key: Seq<char>) -> Option<Option<bool>> {
    match value.member(key) {
        None => Some(None),
        Some(JsonView::Null) => Some(None),
        Some(JsonView::Bool(flag)) => Some(Some(flag)),
        Some(_) => None,
    }
}

/// The number of the member `key`, which may be missing or null.
pub open spec fn optional_number(value: JsonView, key: Seq<char>) -> Option<Option<NumberView>> {
    match value.member(key) {
        None => Some(None),
        Some(JsonView::Null) => Some(None),
        Some(JsonView::Number(number)) => Some(Some(number)),
        Some(_) => None,
    }
}

/// The texts of `items` if every one of them is a string.
pub open spec fn all_texts(items: Seq<JsonView>) -> Option<Seq<Seq<char>>> {
    if forall|i: int| 0 <= i < items.len() ==> (#[trigger] items[i]) is String {
        Some(Seq::new(items.len(), |i: int| items[i]->String_0))
    } else {
        None
    }
}

/// The texts of the member `key`, which must be an array of strings.
pub open spec fn required_texts(value: JsonView, key: Seq<char>) -> Option<Seq<Seq<char>>> {
    match value.member(key) {
        Some(JsonView::Array(items)) => all_texts(items),
        _ => None,
    }
}

/// The saved page that `value` describes, if it describes one.
pub open spec fn tab_of(value: JsonView) -> Option<TabView> {
    if value is Object {
        match (optional_text(value, "savedTitle"@), optional_text(value, "savedURL"@)) {
            (Some(saved_title), Some(saved_url)) => Some(TabView { saved_title, saved_url }),
            _ => None,
        }
    } else {
        None
    }
}

/// The bookmark payload that `value` describes, if it describes one.
pub open spec fn tab_data_of(value: JsonView) -> Option<SidebarTabDataView> {
    match value.member("tab"@) {
        Some(inner) => match tab_of(inner) {
            Some(tab) => Some(SidebarTabDataView { tab }),
            None => None,
        },
        None => None,
    }
}

/// The bookmark that `value` describes, if it describes one.
pub open spec fn bookmark_of(value: JsonView) -> Option<BookmarkView> {
    match (
        required_text(value, "id"@),
        optional_text(value, "title"@),
        value.member("data"@),
        optional_text(value, "parentID"@),
    ) {
        (Some(id), Some(title), Some(payload), Some(parent_id)) => match tab_data_of(payload) {
            Some(data) => Some(BookmarkView { id, title, data, parent_id }),
            None => None,
        },
        _ => None,
    }
}

/// The folder that `value` describes, if it describes one.
pub open spec fn folder_of(value: JsonView) -> Option<FolderView> {
    match (
        required_text(value, "id"@),
        optional_text(value, "title"@),
        value.member("data"@),
        optional_text(value, "parentID"@),
        required_texts(value, "childrenIds"@),
        optional_flag(value, "isUnread"@),
        optional_text(value, "originatingDevice"@),
        optional_number(value, "createdAt"@),
    ) {
        (
            Some(id),
            Some(title),
            Some(data),
            Some(parent_id),
            Some(children_ids),
            Some(is_unread),
            Some(originating_device),
            Some(created_at),
        ) => Some(
            FolderView {
                id,
                title,
                data,
                parent_id,
                children_ids,
                is_unread,
                originating_device,
                created_at,
            },
        ),
        _ => None,
    }
}

/// Whether the payload of `value` has the shape of a folder's.
pub open spec fn folder_shaped(value: JsonView) -> bool {
    value.at_path(seq!["data"@, "list"@]) is Some || value.at_path(
        seq!["data"@, "itemContainer"@],
    ) is Some
}

/// Whether the payload of `value` has the shape of a bookmark's.
pub open spec fn bookmark_shaped(value: JsonView) -> bool {
    value.at_path(seq!["data"@, "tab"@]) is Some
}

/// What an entry of the list of items is: a folder if its payload has a
/// folder's shape and it reads as a folder; else a bookmark if its payload has
/// a bookmark's shape and it reads as one; else the value itself.
pub open spec fn classify(value: JsonView) -> SidebarItemView {
    if folder_shaped(value) && folder_of(value) is Some {
        SidebarItemView::Folder(folder_of(value)->0)
    } else if bookmark_shaped(value) && bookmark_of(value) is Some {
        SidebarItemView::Bookmark(bookmark_of(value)->0)
    } else {
        SidebarItemView::Value(value)
    }
}

/// Every entry of a list of items, told apart on its own.
pub open spec fn classify_all(items: Seq<JsonView>) -> Seq<SidebarItemView> {
    Seq::new(items.len(), |i: int| classify(items[i]))
}

/// The space that `value` describes, if it describes one.
pub open spec fn space_of(value: JsonView) -> Option<SpaceView> {
    match (
        required_text(value, "id"@),
        optional_text(value, "title"@),
        value.member("customInfo"@),
        value.member("newContainerIDs"@),
        value.member("profile"@),
        value.member("containerIDs"@),
    ) {
        (
            Some(id),
            Some(title),
            Some(custom_info),
            Some(new_container_ids),
            Some(profile),
            Some(container_ids),
        ) => Some(
            SpaceView { id, title, custom_info, new_container_ids, profile, container_ids },
        ),
        _ => None,
    }
}

/// What an entry of the list of spaces is.
pub open spec fn space_entry(value: JsonView) -> SpaceTypeView {
    match space_of(value) {
        Some(space) => SpaceTypeView::Space(space),
        None => SpaceTypeView::Value(value),
    }
}

/// Every entry of a list of spaces.
pub open spec fn space_entries(values: Seq<JsonView>) -> Seq<SpaceTypeView> {
    Seq::new(values.len(), |i: int| space_entry(values[i]))
}

/// What a container is: the list of spaces and items if it has the members
/// `spaces` and `items`, both arrays, and `topAppsContainerIDs`; else the
/// value itself.
pub open spec fn container_of(value: JsonView) -> SidebarContainerView {
    match (value.member("spaces"@), value.member("topAppsContainerIDs"@), value.member("items"@)) {
        (Some(JsonView::Array(spaces)), Some(top), Some(JsonView::Array(items))) => {
            SidebarContainerView::SpacesAndItems(
                SpacesAndItemsView {
                    spaces: space_entries(spaces),
                    top_apps_container_ids: top,
                    items: classify_all(items),
                },
            )
        },
        _ => SidebarContainerView::Value(value),
    }
}

/// The containers of the sidebar that `value` describes, if it describes one.
pub open spec fn sidebar_of(value: JsonView) -> Option<Seq<SidebarContainerView>> {
    match value.member("containers"@) {
        Some(JsonView::Array(containers)) => Some(
            Seq::new(containers.len(), |i: int| container_of(containers[i])),
        ),
        _ => None,
    }
}

/// The members of a saved state that a document must have.
pub struct StateView {
    pub sidebar_sync_state: JsonView,
    pub version: int,
    pub containers: Seq<SidebarContainerView>,
    pub firebase_sync_state: JsonView,
}

/// The saved state that `value` describes, if it describes one.
pub open spec fn state_of(value: JsonView) -> Option<StateView> {
    match (
        value.member("sidebarSyncState"@),
        value.member("version"@),
        value.member("sidebar"@),
        value.member("firebaseSyncState"@),
    ) {
        (
            Some(sidebar_sync_state),
            Some(JsonView::Number(NumberView::Int(version))),
            Some(sidebar),
            Some(firebase_sync_state),
        ) => match sidebar_of(sidebar) {
            Some(containers) => Some(
                StateView { sidebar_sync_state, version, containers, firebase_sync_state },
            ),
            None => None,
        },
        _ => None,
    }
}

/// Entries are told apart one by one: what stands before or after an entry,
/// well-formed or not, has no part in what the entry is found to be.
pub proof fn lemma_classification_is_local(
    before: Seq<JsonView>,
    entry: JsonView,
    after: Seq<JsonView>,
)
    ensures
        classify_all(before + seq![entry] + after) == classify_all(before) + seq![classify(entry)]
            + classify_all(after),
{
}

/// An entry whose payload has neither a folder's nor a bookmark's shape is
/// kept as the value it is.
pub proof fn lemma_unshaped_entry_is_value(entry: JsonView)
    requires
        !folder_shaped(entry),
        !bookmark_shaped(entry),
    ensures
        classify(entry) == SidebarItemView::Value(entry),
{
}

fn required_string(value: &Json, key: &str) -> (r: Option<String>)
    ensures
        r.deep_view() == required_text(value@, key@),
{
    match value.get(key) {
        Some(Json::String(text)) => Some(text.clone()),
        _ => None,
    }
}

fn optional_string(value: &Json, key: &str) -> (r: Option<Option<String>>)
    ensures
        r.deep_view() == optional_text(value@, key@),
{
    match value.get(key) {
        None => Some(None),
        Some(Json::Null) => Some(None),
        Some(Json::String(text)) => Some(Some(text.clone())),
        Some(_) => None,
    }
}

fn optional_bool(value: &Json, key: &str) -> (r: Option<Option<bool>>)
    ensures
        r == optional_flag(value@, key@),
{
    match value.get(key) {
        None => Some(None),
        Some(Json::Null) => Some(None),
        Some(Json::Bool(flag)) => Some(Some(*flag)),
        Some(_) => None,
    }
}

fn optional_num(value: &Json, key: &str) -> (r: Option<Option<Number>>)
    ensures
        match r {
            Some(Some(number)) => optional_number(value@, key@) == Some(Some(number@)),
            Some(None) => optional_number(value@, key@) == Some(None::<NumberView>),
            None => optional_number(value@, key@) is None,
        },
{
    match value.get(key) {
        None => Some(None),
        Some(Json::Null) => Some(None),
        Some(Json::Number(number)) => Some(Some(number.clone())),
        Some(_) => None,
    }
}

fn required_strings(value: &Json, key: &str) -> (r: Option<Vec<String>>)
    ensures
        match r {
            Some(texts) => required_texts(value@, key@) == Some(texts_of(texts@)),
            None => required_texts(value@, key@) is None,
        },
{
    let found = match value.get(key) {
        Some(found) => found.as_array(),
        None => None,
    };
    match found {
        Some(items) => {
            let ghost views = views_of(items@);
            let mut out: Vec<String> = Vec::new();
            let mut i: usize = 0;
            while i < items.len()
                invariant
                    i <= items.len(),
                    views == views_of(items@),
                    value@.member(key@) == Some(JsonView::Array(views)),
                    out.len() == i,
                    forall|k: int| 0 <= k < i ==> (#[trigger] views[k]) is String,
                    forall|k: int| 0 <= k < i ==> out@[k]@ == views[k]->String_0,
                decreases items.len() - i,
            {
                match &items[i] {
                    Json::String(text) => {
                        out.push(text.clone());
                    },
                    _ => {
                        assert(!(views[i as int] is String));
                        return None;
                    },
                }
                i += 1;
            }
            Some(out)
        },
        None => None,
    }
}

impl Tab {
    /// Reads a saved page.
    pub fn from_json(value: &Json) -> (r: Option<Tab>)
        ensures
            match r {
                Some(tab) => tab_of(value@) == Some(tab@),
                None => tab_of(value@) is None,
            },
    {
        match value {
            Json::Object(_) => {
                let saved_title = optional_string(value, "savedTitle");
                let saved_url = optional_string(value, "savedURL");
                match (saved_title, saved_url) {
                    (Some(saved_title), Some(saved_url)) => Some(Tab { saved_title, saved_url }),
                    _ => None,
                }
            },
            _ => None,
        }
    }
}

impl SidebarTabData {
    /// Reads the payload of a bookmark.
    pub fn from_json(value: &Json) -> (r: Option<SidebarTabData>)
        ensures
            match r {
                Some(data) => tab_data_of(value@) == Some(data@),
                None => tab_data_of(value@) is None,
            },
    {
        match value.get("tab") {
            Some(inner) => match Tab::from_json(inner) {
                Some(tab) => Some(SidebarTabData { tab }),
                None => None,
            },
            None => None,
        }
    }
}

impl Bookmark {
    /// Reads a bookmark.
    pub fn from_json(value: &Json) -> (r: Option<Bookmark>)
        ensures
            match r {
                Some(bookmark) => bookmark_of(value@) == Some(bookmark@),
                None => bookmark_of(value@) is None,
            },
    {
        let id = required_string(value, "id");
        let title = optional_string(value, "title");
        let payload = value.get("data");
        let parent_id = optional_string(value, "parentID");
        match (id, title, payload, parent_id) {
            (Some(id), Some(title), Some(payload), Some(parent_id)) => {
                match SidebarTabData::from_json(payload) {
                    Some(data) => Some(Bookmark { id, title, data, parent_id }),
                    None => None,
                }
            },
            _ => None,
        }
    }
}

impl Folder {
    /// Reads a folder.
    pub fn from_json(value: &Json) -> (r: Option<Folder>)
        ensures
            match r {
                Some(folder) => folder_of(value@) == Some(folder@),
                None => folder_of(value@) is None,
            },
    {
        let id = required_string(value, "id");
        let title = optional_string(value, "title");
        let data = value.get("data");
        let parent_id = optional_string(value, "parentID");
        let children_ids = required_strings(value, "childrenIds");
        let is_unread = optional_bool(value, "isUnread");
        let originating_device = optional_string(value, "originatingDevice");
        let created_at = optional_num(value, "createdAt");
        match (
            id,
            title,
            data,
            parent_id,
            children_ids,
            is_unread,
            originating_device,
            created_at,
        ) {
            (
                Some(id),
                Some(title),
                Some(data),
                Some(parent_id),
                Some(children_ids),
                Some(is_unread),
                Some(originating_device),
                Some(created_at),
            ) => Some(
                Folder {
                    id,
                    title,
                    data: data.clone(),
                    parent_id,
                    children_ids,
                    is_unread,
                    originating_device,
                    created_at,
                },
            ),
            _ => None,
        }
    }
}

fn has_nested(value: &Json, first: &str, second: &str) -> (r: bool)
    ensures
        r == (value@.at_path(seq![first@, second@]) is Some),
{
    let keys: Vec<&str> = vec![first, second];
    assert(crate::json::key_views(keys@) =~= seq![first@, second@]);
    value.get_path(&keys).is_some()
}

impl SidebarItemType {
    /// Tells what an entry of the list of items is, by the shape of its
    /// payload.
    pub fn from_json(value: &Json) -> (r: SidebarItemType)
        ensures
            r@ == classify(value@),
    {
        if has_nested(value, "data", "list") || has_nested(value, "data", "itemContainer") {
            match Folder::from_json(value) {
                Some(folder) => {
                    return SidebarItemType::Folder(folder);
                },
                None => {},
            }
        }
        if has_nested(value, "data", "tab") {
            match Bookmark::from_json(value) {
                Some(bookmark) => {
                    return SidebarItemType::Bookmark(bookmark);
                },
                None => {},
            }
        }
        SidebarItemType::Value(value.clone())
    }
}

impl Space {
    /// Reads a space.
    pub fn from_json(value: &Json) -> (r: Option<Space>)
        ensures
            match r {
                Some(space) => space_of(value@) == Some(space@),
                None => space_of(value@) is None,
            },
    {
        let id = required_string(value, "id");
        let title = optional_string(value, "title");
        let custom_info = value.get("customInfo");
        let new_container_ids = value.get("newContainerIDs");
        let profile = value.get("profile");
        let container_ids = value.get("containerIDs");
        match (id, title, custom_info, new_container_ids, profile, container_ids) {
            (
                Some(id),
                Some(title),
                Some(custom_info),
                Some(new_container_ids),
                Some(profile),
                Some(container_ids),
            ) => Some(
                Space {
                    id,
                    title,
                    custom_info: custom_info.clone(),
                    new_container_ids: new_container_ids.clone(),
                    profile: profile.clone(),
                    container_ids: container_ids.clone(),
                },
            ),
            _ => None,
        }
    }
}

impl SpaceType {
    /// Tells what an entry of the list of spaces is.
    pub fn from_json(value: &Json) -> (r: SpaceType)
        ensures
            r@ == space_entry(value@),
    {
        match Space::from_json(value) {
            Some(space) => SpaceType::Space(space),
            None => SpaceType::Value(value.clone()),
        }
    }
}

impl SidebarContainer {
    /// Tells what a container is.
    pub fn from_json(value: &Json) -> (r: SidebarContainer)
        ensures
            r@ == container_of(value@),
    {
        let spaces = match value.get("spaces") {
            Some(found) => found.as_array(),
            None => None,
        };
        let items = match value.get("items") {
            Some(found) => found.as_array(),
            None => None,
        };
        match (spaces, value.get("topAppsContainerIDs"), items) {
            (Some(raw_spaces), Some(top), Some(raw_items)) => {
                let ghost space_values = views_of(raw_spaces@);
                let ghost item_values = views_of(raw_items@);
                let mut spaces: Vec<SpaceType> = Vec::new();
                let mut i: usize = 0;
                while i < raw_spaces.len()
                    invariant
                        i <= raw_spaces.len(),
                        spaces.len() == i,
                        forall|k: int| 0 <= k < i ==> spaces@[k]@ == space_entry(raw_spaces@[k]@),
                    decreases raw_spaces.len() - i,
                {
                    spaces.push(SpaceType::from_json(&raw_spaces[i]));
                    i += 1;
                }
                let mut items: Vec<SidebarItemType> = Vec::new();
                let mut k: usize = 0;
                while k < raw_items.len()
                    invariant
                        k <= raw_items.len(),
                        items.len() == k,
                        forall|j: int| 0 <= j < k ==> items@[j]@ == classify(raw_items@[j]@),
                    decreases raw_items.len() - k,
                {
                    items.push(SidebarItemType::from_json(&raw_items[k]));
                    k += 1;
                }
                let inner = SidebarSpacesAndItemsContainer {
                    spaces,
                    top_apps_container_ids: top.clone(),
                    items,
                };
                assert(inner@.spaces =~= space_entries(space_values));
                assert(inner@.items =~= classify_all(item_values));
                SidebarContainer::SpacesAndItems(inner)
            },
            _ => SidebarContainer::Value(value.clone()),
        }
    }
}

impl Sidebar {
    /// Reads a sidebar.
    pub fn from_json(value: &Json) -> (r: Option<Sidebar>)
        ensures
            match r {
                Some(sidebar) => sidebar_of(value@) == Some(sidebar@),
                None => sidebar_of(value@) is None,
            },
    {
        match value.get("containers") {
            Some(Json::Array(raw)) => {
                let mut containers: Vec<SidebarContainer> = Vec::new();
                let mut i: usize = 0;
                while i < raw.len()
                    invariant
                        i <= raw.len(),
                        containers.len() == i,
                        forall|k: int| 0 <= k < i ==> containers@[k]@ == container_of(raw@[k]@),
                    decreases raw.len() - i,
                {
                    containers.push(SidebarContainer::from_json(&raw[i]));
                    i += 1;
                }
                let sidebar = Sidebar { containers };
                Some(sidebar)
            },
            _ => None,
        }
    }
}

impl SidebarState {
    /// The members of the saved state that a document holds.
    pub open spec fn document(&self) -> StateView {
        StateView {
            sidebar_sync_state: self.sidebar_sync_state@,
            version: self.version as int,
            containers: self.sidebar@,
            firebase_sync_state: self.firebase_sync_state@,
        }
    }

    /// Reads the saved state of a sidebar. The document must be an object that
    /// has the members `sidebarSyncState`, `version` (an integer), `sidebar`
    /// (with its `containers`) and `firebaseSyncState`; anything else is a
    /// parse error. No node is recorded yet in the state that comes back.
    pub fn from_json(value: &Json) -> (r: Result<SidebarState, Error>)
        ensures
            match r {
                Ok(state) => state_of(value@) == Some(state.document())
                    && state.item_map.recorded().len() == 0,
                Err(e) => state_of(value@) is None && e matches Error::Parse(_),
            },
    {
        match (
            value.get("sidebarSyncState"),
            value.get("version"),
            value.get("sidebar"),
            value.get("firebaseSyncState"),
        ) {
            (
                Some(sync),
                Some(Json::Number(Number::Int(version))),
                Some(raw_sidebar),
                Some(firebase),
            ) => match Sidebar::from_json(raw_sidebar) {
                Some(sidebar) => Ok(
                    SidebarState {
                        sidebar_sync_state: sync.clone(),
                        version: *version,
                        sidebar,
                        firebase_sync_state: firebase.clone(),
                        item_map: ItemMap::new(),
                    },
                ),
                None => Err(Error::Parse("the sidebar has no list of containers".to_string())),
            },
            _ => Err(Error::Parse("the document is not a saved sidebar state".to_string())),
        }
    }
}

} // verus!
