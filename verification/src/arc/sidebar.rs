//! The saved sidebar of the Arc browser: spaces, folders and bookmarks, and
//! the path of titles that leads from a space down to an item.

use crate::error::Error;
use crate::json::{Json, JsonView, Number, NumberView};
use crate::text::{clone_optional, clone_strings, join, join_strings, texts_of};
use vstd::prelude::*;

verus! {

/// The page that a bookmark points to, as the browser saved it.
#[derive(Debug)]
pub struct Tab {
    pub saved_title: Option<String>,
    pub saved_url: Option<String>,
}

pub struct TabView {
    pub saved_title: Option<Seq<char>>,
    pub saved_url: Option<Seq<char>>,
}

impl View for Tab {
    type V = TabView;

    open spec fn view(&self) -> TabView {
        TabView {
            saved_title: self.saved_title.deep_view(),
            saved_url: self.saved_url.deep_view(),
        }
    }
}

impl Clone for Tab {
    fn clone(&self) -> (r: Self)
        ensures
            r@ == self@,
    {
        Tab {
            saved_title: clone_optional(&self.saved_title),
            saved_url: clone_optional(&self.saved_url),
        }
    }
}

/// The payload of a bookmark.
#[derive(Debug)]
pub struct SidebarTabData {
    pub tab: Tab,
}

pub struct SidebarTabDataView {
    pub tab: TabView,
}

impl View for SidebarTabData {
    type V = SidebarTabDataView;

    open spec fn view(&self) -> SidebarTabDataView {
        SidebarTabDataView { tab: self.tab@ }
    }
}

impl Clone for SidebarTabData {
    fn clone(&self) -> (r: Self)
        ensures
            r@ == self@,
    {
        SidebarTabData { tab: self.tab.clone() }
    }
}

/// A saved page in the sidebar.
#[derive(Debug)]
pub struct Bookmark {
    pub id: String,
    pub title: Option<String>,
    pub data: SidebarTabData,
    pub parent_id: Option<String>,
}

pub struct BookmarkView {
    pub id: Seq<char>,
    pub title: Option<Seq<char>>,
    pub data: SidebarTabDataView,
    pub parent_id: Option<Seq<char>>,
}

impl BookmarkView {
    /// The title to show: the one a person gave if it is not empty, else the
    /// one saved from the page.
    pub open spec fn effective_title(self) -> Option<Seq<char>> {
        match self.title {
            Some(title) => if title.len() == 0 {
                self.data.tab.saved_title
            } else {
                Some(title)
            },
            None => self.data.tab.saved_title,
        }
    }
}

impl View for Bookmark {
    type V = BookmarkView;

    open spec fn view(&self) -> BookmarkView {
        BookmarkView {
            id: self.id@,
            title: self.title.deep_view(),
            data: self.data@,
            parent_id: self.parent_id.deep_view(),
        }
    }
}

impl Clone for Bookmark {
    fn clone(&self) -> (r: Self)
        ensures
            r@ == self@,
    {
        Bookmark {
            id: self.id.clone(),
            title: clone_optional(&self.title),
            data: self.data.clone(),
            parent_id: clone_optional(&self.parent_id),
        }
    }
}

impl Bookmark {
    /// Returns the title of the bookmark, preferring the human-set title and
    /// falling back to the title saved from the page.
    pub fn title(&self) -> (r: Option<String>)
        ensures
            r.deep_view() == self@.effective_title(),
            self.title is Some && self.title->0@.len() > 0 ==> r.deep_view() == Some(
                self.title->0@,
            ),
            self.title is None || self.title->0@.len() == 0 ==> r.deep_view()
                == self.data.tab.saved_title.deep_view(),
    {
        match &self.title {
            Some(title) => {
                if title.as_str().is_empty() {
                    clone_optional(&self.data.tab.saved_title)
                } else {
                    Some(title.clone())
                }
            },
            None => clone_optional(&self.data.tab.saved_title),
        }
    }
}

/// The keys that lead, inside a folder's payload, to the space that holds it.
pub open spec fn space_pointer() -> Seq<Seq<char>> {
    seq!["itemContainer"@, "containerType"@, "spaceItems"@, "_0"@]
}

/// A folder of the sidebar.
#[derive(Debug)]
pub struct Folder {
    pub id: String,
    pub title: Option<String>,
    pub data: Json,
    pub parent_id: Option<String>,
    pub children_ids: Vec<String>,
    pub is_unread: Option<bool>,
    pub originating_device: Option<String>,
    pub created_at: Option<Number>,
}

pub struct FolderView {
    pub id: Seq<char>,
    pub title: Option<Seq<char>>,
    pub data: JsonView,
    pub parent_id: Option<Seq<char>>,
    pub children_ids: Seq<Seq<char>>,
    pub is_unread: Option<bool>,
    pub originating_device: Option<Seq<char>>,
    pub created_at: Option<NumberView>,
}

impl FolderView {
    /// The space that the payload of the folder names, if it names one.
    pub open spec fn named_space(self) -> Option<Seq<char>> {
        match self.data.at_path(space_pointer()) {
            Some(found) => found.text(),
            None => None,
        }
    }

    /// The identifier of the node above this folder: the explicit one if there
    /// is one, else the space named inside the payload, if it names one.
    pub open spec fn parent(self) -> Option<Seq<char>> {
        match self.parent_id {
            Some(parent) => Some(parent),
            None => self.named_space(),
        }
    }

    /// Whether the folder names two different parents: an explicit one, and
    /// another as the space inside its payload.
    pub open spec fn parents_conflict(self) -> bool {
        self.parent_id is Some && self.named_space() is Some && self.parent_id
            != self.named_space()
    }
}

impl View for Folder {
    type V = FolderView;

    open spec fn view(&self) -> FolderView {
        FolderView {
            id: self.id@,
            title: self.title.deep_view(),
            data: self.data@,
            parent_id: self.parent_id.deep_view(),
            children_ids: texts_of(self.children_ids@),
            is_unread: self.is_unread,
            originating_device: self.originating_device.deep_view(),
            created_at: match self.created_at {
                Some(n) => Some(n@),
                None => None,
            },
        }
    }
}

impl Clone for Folder {
    fn clone(&self) -> (r: Self)
        ensures
            r@ == self@,
    {
        Folder {
            id: self.id.clone(),
            title: clone_optional(&self.title),
            data: self.data.clone(),
            parent_id: clone_optional(&self.parent_id),
            children_ids: clone_strings(&self.children_ids),
            is_unread: self.is_unread,
            originating_device: clone_optional(&self.originating_device),
            created_at: match &self.created_at {
                Some(n) => Some(n.clone()),
                None => None,
            },
        }
    }
}

impl Folder {
    /// The space that the payload of the folder names, if it names one.
    pub fn named_space(&self) -> (r: Option<&String>)
        ensures
            r.deep_view() == self@.named_space(),
    {
        let keys: Vec<&str> = vec!["itemContainer", "containerType", "spaceItems", "_0"];
        assert(crate::json::key_views(keys@) =~= space_pointer());
        match self.data.get_path(&keys) {
            Some(found) => found.as_str(),
            None => None,
        }
    }

    /// The identifier of the node above this folder. Where the folder names
    /// an explicit parent and a space in its payload, the explicit one counts.
    pub fn parent_id(&self) -> (r: Option<String>)
        ensures
            r.deep_view() == self@.parent(),
            self.parent_id is Some ==> r.deep_view() == self.parent_id.deep_view(),
    {
        match &self.parent_id {
            Some(parent) => Some(parent.clone()),
            None => match self.named_space() {
                Some(space) => Some(space.clone()),
                None => None,
            },
        }
    }

    /// Whether the folder names two different parents: an explicit one, and
    /// another as the space inside its payload.
    pub fn has_conflicting_parents(&self) -> (r: bool)
        ensures
            r == self@.parents_conflict(),
    {
        match (&self.parent_id, self.named_space()) {
            (Some(explicit), Some(space)) => *explicit != *space,
            _ => false,
        }
    }
}

/// A space: a root of the sidebar.
#[derive(Debug)]
pub struct Space {
    pub id: String,
    pub title: Option<String>,
    pub custom_info: Json,
    pub new_container_ids: Json,
    pub profile: Json,
    pub container_ids: Json,
}

pub struct SpaceView {
    pub id: Seq<char>,
    pub title: Option<Seq<char>>,
    pub custom_info: JsonView,
    pub new_container_ids: JsonView,
    pub profile: JsonView,
    pub container_ids: JsonView,
}

impl View for Space {
    type V = SpaceView;

    open spec fn view(&self) -> SpaceView {
        SpaceView {
            id: self.id@,
            title: self.title.deep_view(),
            custom_info: self.custom_info@,
            new_container_ids: self.new_container_ids@,
            profile: self.profile@,
            container_ids: self.container_ids@,
        }
    }
}

impl Clone for Space {
    fn clone(&self) -> (r: Self)
        ensures
            r@ == self@,
    {
        Space {
            id: self.id.clone(),
            title: clone_optional(&self.title),
            custom_info: self.custom_info.clone(),
            new_container_ids: self.new_container_ids.clone(),
            profile: self.profile.clone(),
            container_ids: self.container_ids.clone(),
        }
    }
}

/// An entry of the list of spaces: a space, or anything else, kept as it was.
#[derive(Debug)]
pub enum SpaceType {
    Space(Space),
    Value(Json),
}

pub enum SpaceTypeView {
    Space(SpaceView),
    Value(JsonView),
}

impl View for SpaceType {
    type V = SpaceTypeView;

    open spec fn view(&self) -> SpaceTypeView {
        match self {
            SpaceType::Space(space) => SpaceTypeView::Space(space@),
            SpaceType::Value(value) => SpaceTypeView::Value(value@),
        }
    }
}

/// An entry of the list of items: a folder, a bookmark, or anything else,
/// kept as it was.
#[derive(Debug)]
pub enum SidebarItemType {
    Folder(Folder),
    Bookmark(Bookmark),
    Value(Json),
}

pub enum SidebarItemView {
    Folder(FolderView),
    Bookmark(BookmarkView),
    Value(JsonView),
}

impl View for SidebarItemType {
    type V = SidebarItemView;

    open spec fn view(&self) -> SidebarItemView {
        match self {
            SidebarItemType::Folder(folder) => SidebarItemView::Folder(folder@),
            SidebarItemType::Bookmark(bookmark) => SidebarItemView::Bookmark(bookmark@),
            SidebarItemType::Value(value) => SidebarItemView::Value(value@),
        }
    }
}

/// The container that lists the spaces and the items of the sidebar.
#[derive(Debug)]
pub struct SidebarSpacesAndItemsContainer {
    pub spaces: Vec<SpaceType>,
    pub top_apps_container_ids: Json,
    pub items: Vec<SidebarItemType>,
}

pub struct SpacesAndItemsView {
    pub spaces: Seq<SpaceTypeView>,
    pub top_apps_container_ids: JsonView,
    pub items: Seq<SidebarItemView>,
}

/// The values of a list of space entries.
pub open spec fn space_views(spaces: Seq<SpaceType>) -> Seq<SpaceTypeView> {
    Seq::new(spaces.len(), |i: int| spaces[i]@)
}

/// The values of a list of item entries.
pub open spec fn item_views(items: Seq<SidebarItemType>) -> Seq<SidebarItemView> {
    Seq::new(items.len(), |i: int| items[i]@)
}

impl View for SidebarSpacesAndItemsContainer {
    type V = SpacesAndItemsView;

    open spec fn view(&self) -> SpacesAndItemsView {
        SpacesAndItemsView {
            spaces: space_views(self.spaces@),
            top_apps_container_ids: self.top_apps_container_ids@,
            items: item_views(self.items@),
        }
    }
}

/// A container of the sidebar: the one that lists spaces and items, or
/// anything else, kept as it was.
#[derive(Debug)]
pub enum SidebarContainer {
    SpacesAndItems(SidebarSpacesAndItemsContainer),
    Value(Json),
}

pub enum SidebarContainerView {
    SpacesAndItems(SpacesAndItemsView),
    Value(JsonView),
}

impl View for SidebarContainer {
    type V = SidebarContainerView;

    open spec fn view(&self) -> SidebarContainerView {
        match self {
            SidebarContainer::SpacesAndItems(inner) => SidebarContainerView::SpacesAndItems(
                inner@,
            ),
            SidebarContainer::Value(value) => SidebarContainerView::Value(value@),
        }
    }
}

/// The sidebar: its containers in their order.
#[derive(Debug)]
pub struct Sidebar {
    pub containers: Vec<SidebarContainer>,
}

/// The values of a list of containers.
pub open spec fn container_views(containers: Seq<SidebarContainer>) -> Seq<
    SidebarContainerView,
> {
    Seq::new(containers.len(), |i: int| containers[i]@)
}

impl View for Sidebar {
    type V = Seq<SidebarContainerView>;

    open spec fn view(&self) -> Seq<SidebarContainerView> {
        container_views(self.containers@)
    }
}

/// A node of the sidebar's forest.
#[derive(Debug)]
pub enum Node {
    Space(Space),
    Folder(Folder),
    Bookmark(Bookmark),
}

pub enum NodeView {
    Space(SpaceView),
    Folder(FolderView),
    Bookmark(BookmarkView),
}

impl NodeView {
    /// The identifier under which the node is found.
    pub open spec fn id(self) -> Seq<char> {
        match self {
            NodeView::Space(space) => space.id,
            NodeView::Folder(folder) => folder.id,
            NodeView::Bookmark(bookmark) => bookmark.id,
        }
    }
}

impl View for Node {
    type V = NodeView;

    open spec fn view(&self) -> NodeView {
        match self {
            Node::Space(space) => NodeView::Space(space@),
            Node::Folder(folder) => NodeView::Folder(folder@),
            Node::Bookmark(bookmark) => NodeView::Bookmark(bookmark@),
        }
    }
}

impl Node {
    /// The identifier under which the node is found.
    pub fn id(&self) -> (r: &String)
        ensures
            r@ == self@.id(),
    {
        match self {
            Node::Space(space) => &space.id,
            Node::Folder(folder) => &folder.id,
            Node::Bookmark(bookmark) => &bookmark.id,
        }
    }
}

/// The values of a list of nodes.
pub open spec fn node_views(nodes: Seq<Node>) -> Seq<NodeView> {
    Seq::new(nodes.len(), |i: int| nodes[i]@)
}

/// The map from identifier to node that results from recording `nodes` in
/// their order, a later node taking the place of an earlier one of the same
/// identifier.
pub open spec fn map_of(nodes: Seq<NodeView>) -> Map<Seq<char>, NodeView>
    decreases nodes.len(),
{
    if nodes.len() == 0 {
        Map::empty()
    } else {
        map_of(nodes.drop_last()).insert(nodes.last().id(), nodes.last())
    }
}

/// The last node recorded under an identifier is the one that the map holds.
pub proof fn lemma_map_of_found(nodes: Seq<NodeView>, id: Seq<char>, k: int)
    requires
        0 <= k < nodes.len(),
        nodes[k].id() == id,
        forall|j: int| k < j < nodes.len() ==> nodes[j].id() != id,
    ensures
        map_of(nodes).contains_key(id),
        map_of(nodes)[id] == nodes[k],
    decreases nodes.len(),
{
    if k < nodes.len() - 1 {
        lemma_map_of_found(nodes.drop_last(), id, k);
    }
}

/// An identifier under which no node was recorded is not in the map.
pub proof fn lemma_map_of_absent(nodes: Seq<NodeView>, id: Seq<char>)
    requires
        forall|j: int| 0 <= j < nodes.len() ==> nodes[j].id() != id,
    ensures
        !map_of(nodes).contains_key(id),
    decreases nodes.len(),
{
    if nodes.len() > 0 {
        lemma_map_of_absent(nodes.drop_last(), id);
    }
}

/// The texts of a list of pairs.
pub open spec fn pair_views(pairs: Seq<(String, String)>) -> Seq<(Seq<char>, Seq<char>)> {
    Seq::new(pairs.len(), |i: int| (pairs[i].0@, pairs[i].1@))
}

/// A text that may be missing, or the empty one.
pub open spec fn text_or_empty(text: Option<Seq<char>>) -> Seq<char> {
    match text {
        Some(text) => text,
        None => Seq::empty(),
    }
}

/// The identifier and the title of every space among `nodes` if `spaces` is
/// set, of every folder if it is not, in the order of `nodes`.
pub open spec fn titles_of(nodes: Seq<NodeView>, spaces: bool) -> Seq<(Seq<char>, Seq<char>)>
    decreases nodes.len(),
{
    if nodes.len() == 0 {
        Seq::empty()
    } else {
        titles_of(nodes.drop_last(), spaces) + match nodes.last() {
            NodeView::Space(space) => if spaces {
                seq![(space.id, text_or_empty(space.title))]
            } else {
                Seq::empty()
            },
            NodeView::Folder(folder) => if spaces {
                Seq::empty()
            } else {
                seq![(folder.id, text_or_empty(folder.title))]
            },
            NodeView::Bookmark(_) => Seq::empty(),
        }
    }
}

/// The nodes of a sidebar by identifier. The nodes are kept in a list in the
/// order in which they were recorded, and a lookup walks the list from its
/// end: vstd gives hash maps a model for keys that are integers, not for
/// keys that are texts.
#[derive(Debug)]
pub struct ItemMap {
    nodes: Vec<Node>,
}

impl ItemMap {
    /// The nodes in the order in which they were recorded.
    pub closed spec fn recorded(&self) -> Seq<NodeView> {
        node_views(self.nodes@)
    }

    /// The number of nodes that were recorded.
    pub open spec fn spec_len(&self) -> nat {
        self.recorded().len()
    }

    /// An empty map.
    pub fn new() -> (r: ItemMap)
        ensures
            r.recorded() == Seq::<NodeView>::empty(),
    {
        let r = ItemMap { nodes: Vec::new() };
        r
    }

    /// The number of nodes that were recorded.
    pub fn len(&self) -> (r: usize)
        ensures
            r == self.spec_len(),
    {
        self.nodes.len()
    }

    /// Whether no node was recorded.
    pub fn is_empty(&self) -> (r: bool)
        ensures
            r == (self.recorded().len() == 0),
    {
        self.nodes.len() == 0
    }

    /// Records a node under its identifier.
    pub fn insert(&mut self, node: Node)
        ensures
            final(self).recorded() == old(self).recorded().push(node@),
    {
        self.nodes.push(node);
    }

    /// The node recorded last under `id`.
    pub fn get(&self, id: &str) -> (r: Option<&Node>)
        ensures
            match r {
                Some(node) => self@.contains_key(id@) && self@[id@] == node@,
                None => !self@.contains_key(id@),
            },
    {
        let wanted = id.to_owned();
        let mut i: usize = self.nodes.len();
        while i > 0
            invariant
                i <= self.nodes.len(),
                wanted@ == id@,
                forall|j: int| i <= j < self.nodes.len() ==> self.recorded()[j].id() != id@,
            decreases i,
        {
            i -= 1;
            if *self.nodes[i].id() == wanted {
                proof {
                    lemma_map_of_found(self.recorded(), id@, i as int);
                }
                return Some(&self.nodes[i]);
            }
        }
        proof {
            lemma_map_of_absent(self.recorded(), id@);
        }
        None
    }

    /// The identifier and the title of every space that was recorded if
    /// `spaces` is set, of every folder if it is not.
    pub fn titles(&self, spaces: bool) -> (r: Vec<(String, String)>)
        ensures
            pair_views(r@) == titles_of(self.recorded(), spaces),
    {
        let ghost all = self.recorded();
        let mut out: Vec<(String, String)> = Vec::new();
        let mut i: usize = 0;
        while i < self.nodes.len()
            invariant
                i <= self.nodes.len(),
                all == self.recorded(),
                pair_views(out@) == titles_of(all.take(i as int), spaces),
            decreases self.nodes.len() - i,
        {
            assert(all.take(i + 1).drop_last() =~= all.take(i as int));
            let found = match &self.nodes[i] {
                Node::Space(space) => if spaces {
                    Some((&space.id, &space.title))
                } else {
                    None
                },
                Node::Folder(folder) => if spaces {
                    None
                } else {
                    Some((&folder.id, &folder.title))
                },
                Node::Bookmark(_) => None,
            };
            match found {
                Some((id, title)) => {
                    let text = match title {
                        Some(text) => text.clone(),
                        None => String::new(),
                    };
                    out.push((id.clone(), text));
                },
                None => {},
            }
            i += 1;
        }
        assert(all.take(self.nodes.len() as int) =~= all);
        out
    }
}

impl View for ItemMap {
    type V = Map<Seq<char>, NodeView>;

    open spec fn view(&self) -> Map<Seq<char>, NodeView> {
        map_of(self.recorded())
    }
}

/// The text between the titles of a breadcrumb.
pub open spec fn separator() -> Seq<char> {
    " / "@
}

/// A title as a piece of a breadcrumb: nothing if it is absent or empty.
pub open spec fn title_segment(title: Option<Seq<char>>) -> Seq<Seq<char>> {
    match title {
        Some(text) => if text.len() == 0 {
            Seq::empty()
        } else {
            seq![text]
        },
        None => Seq::empty(),
    }
}

/// The titles met on the way up from `id`, from the root down, in a walk of
/// at most `hops` nodes. A folder contributes its title and hands over to its
/// parent; a space contributes its title and ends the walk; a bookmark
/// contributes nothing and hands over to its parent; a node without a parent
/// and an unknown identifier end the walk.
pub open spec fn ancestor_path(map: Map<Seq<char>, NodeView>, id: Seq<char>, hops: nat) -> Seq<
    Seq<char>,
>
    decreases hops,
{
    if hops == 0 || !map.contains_key(id) {
        Seq::empty()
    } else {
        match map[id] {
            NodeView::Space(space) => title_segment(space.title),
            NodeView::Folder(folder) => match folder.parent() {
                Some(parent) => ancestor_path(map, parent, (hops - 1) as nat) + title_segment(
                    folder.title,
                ),
                None => title_segment(folder.title),
            },
            NodeView::Bookmark(bookmark) => match bookmark.parent_id {
                Some(parent) => ancestor_path(map, parent, (hops - 1) as nat),
                None => Seq::empty(),
            },
        }
    }
}

/// A walk of at most `hops` nodes yields at most `hops` titles, whatever the
/// parents are, even where they lead round in a circle.
pub proof fn lemma_ancestor_path_bounded(map: Map<Seq<char>, NodeView>, id: Seq<char>, hops: nat)
    ensures
        ancestor_path(map, id, hops).len() <= hops,
    decreases hops,
{
    if hops > 0 && map.contains_key(id) {
        match map[id] {
            NodeView::Space(_) => {},
            NodeView::Folder(folder) => {
                if let Some(parent) = folder.parent() {
                    lemma_ancestor_path_bounded(map, parent, (hops - 1) as nat);
                }
            },
            NodeView::Bookmark(bookmark) => {
                if let Some(parent) = bookmark.parent_id {
                    lemma_ancestor_path_bounded(map, parent, (hops - 1) as nat);
                }
            },
        }
    }
}

/// A bookmark that names no parent has nothing above it: the walk ends
/// there with no title, whatever else the sidebar holds.
pub proof fn lemma_bookmark_without_parent_ends_the_walk(
    map: Map<Seq<char>, NodeView>,
    id: Seq<char>,
    hops: nat,
)
    requires
        map.contains_key(id),
        map[id] is Bookmark,
        map[id]->Bookmark_0.parent_id is None,
    ensures
        ancestor_path(map, id, hops) == Seq::<Seq<char>>::empty(),
{
}

/// The breadcrumb of an item that lies directly in a space is the title of
/// that space and nothing else.
pub proof fn lemma_breadcrumb_under_space(
    map: Map<Seq<char>, NodeView>,
    space_id: Seq<char>,
    hops: nat,
)
    requires
        hops > 0,
        map.contains_key(space_id),
        map[space_id] is Space,
    ensures
        join(ancestor_path(map, space_id, hops), separator()) == match map[space_id]->Space_0.title {
            Some(title) => title,
            None => Seq::empty(),
        },
{
    let title = map[space_id]->Space_0.title;
    assert(ancestor_path(map, space_id, hops) == title_segment(title));
    match title {
        Some(text) => {
            if text.len() == 0 {
                assert(text =~= Seq::<char>::empty());
            }
        },
        None => {},
    }
}

/// The breadcrumb of an item that lies in a folder, which lies in a folder
/// that has no parent, is the outer title, the separator and the inner title,
/// in that order.
pub proof fn lemma_breadcrumb_two_folders(
    map: Map<Seq<char>, NodeView>,
    inner_id: Seq<char>,
    outer_id: Seq<char>,
    hops: nat,
)
    requires
        hops >= 2,
        map.contains_key(inner_id),
        map.contains_key(outer_id),
        map[inner_id] is Folder,
        map[outer_id] is Folder,
        map[inner_id]->Folder_0.parent() == Some(outer_id),
        map[outer_id]->Folder_0.parent() is None,
        map[inner_id]->Folder_0.title is Some,
        map[outer_id]->Folder_0.title is Some,
        map[inner_id]->Folder_0.title->0.len() > 0,
        map[outer_id]->Folder_0.title->0.len() > 0,
    ensures
        join(ancestor_path(map, inner_id, hops), separator()) == map[outer_id]->Folder_0.title->0
            + separator() + map[inner_id]->Folder_0.title->0,
{
    let inner = map[inner_id]->Folder_0.title->0;
    let outer = map[outer_id]->Folder_0.title->0;
    assert(ancestor_path(map, outer_id, (hops - 1) as nat) == seq![outer]);
    let path = ancestor_path(map, inner_id, hops);
    assert(path =~= seq![outer, inner]);
    assert(path.drop_last() =~= seq![outer]);
    assert(join(path.drop_last(), separator()) == outer);
}

/// The nodes that a list of space entries holds.
pub open spec fn space_nodes(spaces: Seq<SpaceTypeView>) -> Seq<NodeView>
    decreases spaces.len(),
{
    if spaces.len() == 0 {
        Seq::empty()
    } else {
        space_nodes(spaces.drop_last()) + match spaces.last() {
            SpaceTypeView::Space(space) => seq![NodeView::Space(space)],
            SpaceTypeView::Value(_) => Seq::empty(),
        }
    }
}

/// The nodes that a list of item entries holds.
pub open spec fn item_nodes(items: Seq<SidebarItemView>) -> Seq<NodeView>
    decreases items.len(),
{
    if items.len() == 0 {
        Seq::empty()
    } else {
        item_nodes(items.drop_last()) + match items.last() {
            SidebarItemView::Folder(folder) => seq![NodeView::Folder(folder)],
            SidebarItemView::Bookmark(bookmark) => seq![NodeView::Bookmark(bookmark)],
            SidebarItemView::Value(_) => Seq::empty(),
        }
    }
}

/// The nodes that a container holds: its spaces, then its items.
pub open spec fn container_nodes(container: SidebarContainerView) -> Seq<NodeView> {
    match container {
        SidebarContainerView::SpacesAndItems(inner) => space_nodes(inner.spaces) + item_nodes(
            inner.items,
        ),
        SidebarContainerView::Value(_) => Seq::empty(),
    }
}

/// The nodes of a sidebar, container by container.
pub open spec fn sidebar_nodes(containers: Seq<SidebarContainerView>) -> Seq<NodeView>
    decreases containers.len(),
{
    if containers.len() == 0 {
        Seq::empty()
    } else {
        sidebar_nodes(containers.drop_last()) + container_nodes(containers.last())
    }
}

/// The bookmarks among a list of item entries, in their order.
pub open spec fn item_bookmarks(items: Seq<SidebarItemView>) -> Seq<BookmarkView>
    decreases items.len(),
{
    if items.len() == 0 {
        Seq::empty()
    } else {
        item_bookmarks(items.drop_last()) + match items.last() {
            SidebarItemView::Bookmark(bookmark) => seq![bookmark],
            _ => Seq::empty(),
        }
    }
}

/// The bookmarks of a sidebar, container by container.
pub open spec fn sidebar_bookmarks(containers: Seq<SidebarContainerView>) -> Seq<BookmarkView>
    decreases containers.len(),
{
    if containers.len() == 0 {
        Seq::empty()
    } else {
        sidebar_bookmarks(containers.drop_last()) + match containers.last() {
            SidebarContainerView::SpacesAndItems(inner) => item_bookmarks(inner.items),
            SidebarContainerView::Value(_) => Seq::empty(),
        }
    }
}

/// The values of a list of bookmarks.
pub open spec fn bookmark_views(bookmarks: Seq<Bookmark>) -> Seq<BookmarkView> {
    Seq::new(bookmarks.len(), |i: int| bookmarks[i]@)
}

/// The saved state of the sidebar.
#[derive(Debug)]
pub struct SidebarState {
    pub sidebar_sync_state: Json,
    pub version: i64,
    pub sidebar: Sidebar,
    pub firebase_sync_state: Json,
    pub item_map: ItemMap,
}

impl SidebarState {
    /// The nodes that `build_item_map` leaves recorded: those already there,
    /// or, where none were, those of the sidebar.
    pub open spec fn built_nodes(&self) -> Seq<NodeView> {
        if self.item_map.recorded().len() == 0 {
            sidebar_nodes(self.sidebar@)
        } else {
            self.item_map.recorded()
        }
    }

    /// Returns the titles of the folders and the space above `id`, from the
    /// root down, joined by `" / "`. The walk ends at a space, at a node that
    /// names no parent and at an identifier that the sidebar does not have;
    /// it visits no more nodes than the sidebar has, so it ends on any input.
    pub fn ancestor_titles(&mut self, id: &str) -> (r: Result<String, Error>)
        ensures
            final(self).item_map.recorded() == old(self).built_nodes(),
            final(self).sidebar == old(self).sidebar,
            final(self).version == old(self).version,
            final(self).sidebar_sync_state == old(self).sidebar_sync_state,
            final(self).firebase_sync_state == old(self).firebase_sync_state,
            r matches Ok(text) && text@ == join(
                ancestor_path(
                    map_of(old(self).built_nodes()),
                    id@,
                    old(self).built_nodes().len(),
                ),
                separator(),
            ),
    {
        let _ = self.build_item_map();
        let limit: usize = self.item_map.len();
        let ghost map = self.item_map@;
        let ghost full = ancestor_path(map, id@, limit as nat);
        let mut titles: Vec<String> = Vec::new();
        let mut current: String = id.to_owned();
        let mut hops: usize = limit;
        let mut done = false;
        while !done && hops > 0
            invariant
                map == self.item_map@,
                full == if done {
                    texts_of(titles@)
                } else {
                    ancestor_path(map, current@, hops as nat) + texts_of(titles@)
                },
            decreases (if done { 0int } else { 1int }), hops,
        {
            match self.item_map.get(current.as_str()) {
                None => {
                    done = true;
                },
                Some(node) => match node {
                    Node::Folder(folder) => {
                        let title = clone_optional(&folder.title);
                        match title {
                            Some(text) => {
                                if !text.as_str().is_empty() {
                                    titles.insert(0, text);
                                }
                            },
                            None => {},
                        }
                        match folder.parent_id() {
                            Some(parent) => {
                                current = parent;
                            },
                            None => {
                                done = true;
                            },
                        }
                    },
                    Node::Space(space) => {
                        let title = clone_optional(&space.title);
                        match title {
                            Some(text) => {
                                if !text.as_str().is_empty() {
                                    titles.insert(0, text);
                                }
                            },
                            None => {},
                        }
                        done = true;
                    },
                    Node::Bookmark(bookmark) => {
                        match &bookmark.parent_id {
                            Some(parent) => {
                                current = parent.clone();
                            },
                            None => {
                                done = true;
                            },
                        }
                    },
                },
            }
            hops -= 1;
        }
        Ok(join_strings(&titles, " / "))
    }

    /// Records every space, folder and bookmark of the sidebar under its
    /// identifier, unless nodes are recorded already.
    pub fn build_item_map(&mut self) -> (r: Result<(), Error>)
        ensures
            r is Ok,
            final(self).item_map.recorded() == old(self).built_nodes(),
            final(self).sidebar == old(self).sidebar,
            final(self).version == old(self).version,
            final(self).sidebar_sync_state == old(self).sidebar_sync_state,
            final(self).firebase_sync_state == old(self).firebase_sync_state,
    {
        if !self.item_map.is_empty() {
            return Ok(());
        }
        let map = self.collect_nodes();
        self.item_map = map;
        Ok(())
    }

    /// The spaces, folders and bookmarks of the sidebar, container by
    /// container: the spaces of a container, then its items.
    pub fn collect_nodes(&self) -> (map: ItemMap)
        ensures
            map.recorded() == sidebar_nodes(self.sidebar@),
    {
        let ghost containers = self.sidebar@;
        let mut map = ItemMap::new();
        let mut c: usize = 0;
        while c < self.sidebar.containers.len()
            invariant
                c <= self.sidebar.containers.len(),
                containers == self.sidebar@,
                map.recorded() == sidebar_nodes(containers.take(c as int)),
            decreases self.sidebar.containers.len() - c,
        {
            let ghost start = map.recorded();
            assert(containers.take(c + 1).drop_last() =~= containers.take(c as int));
            match &self.sidebar.containers[c] {
                SidebarContainer::SpacesAndItems(inner) => {
                    let ghost spaces = inner@.spaces;
                    let ghost items = inner@.items;
                    let mut i: usize = 0;
                    while i < inner.spaces.len()
                        invariant
                            i <= inner.spaces.len(),
                            spaces == space_views(inner.spaces@),
                            map.recorded() == start + space_nodes(spaces.take(i as int)),
                        decreases inner.spaces.len() - i,
                    {
                        assert(spaces.take(i + 1).drop_last() =~= spaces.take(i as int));
                        match &inner.spaces[i] {
                            SpaceType::Space(space) => {
                                map.insert(Node::Space(space.clone()));
                            },
                            SpaceType::Value(_) => {},
                        }
                        i += 1;
                    }
                    assert(spaces.take(inner.spaces.len() as int) =~= spaces);
                    let ghost middle = map.recorded();
                    let mut k: usize = 0;
                    while k < inner.items.len()
                        invariant
                            k <= inner.items.len(),
                            items == item_views(inner.items@),
                            map.recorded() == middle + item_nodes(items.take(k as int)),
                        decreases inner.items.len() - k,
                    {
                        assert(items.take(k + 1).drop_last() =~= items.take(k as int));
                        match &inner.items[k] {
                            SidebarItemType::Folder(folder) => {
                                map.insert(Node::Folder(folder.clone()));
                            },
                            SidebarItemType::Bookmark(bookmark) => {
                                map.insert(Node::Bookmark(bookmark.clone()));
                            },
                            SidebarItemType::Value(_) => {},
                        }
                        k += 1;
                    }
                    assert(items.take(inner.items.len() as int) =~= items);
                },
                SidebarContainer::Value(_) => {},
            }
            c += 1;
        }
        assert(containers.take(self.sidebar.containers.len() as int) =~= containers);
        map
    }

    /// Returns the title of every space of the sidebar beside its
    /// identifier, in the order of the document; a space without a title has
    /// the empty one. Where an identifier comes twice, the later pair counts.
    pub fn space_title_map(&self) -> (r: Vec<(String, String)>)
        ensures
            pair_views(r@) == titles_of(sidebar_nodes(self.sidebar@), true),
    {
        let map = self.collect_nodes();
        map.titles(true)
    }

    /// Returns the title of every folder of the sidebar beside its
    /// identifier, in the order of the document; a folder without a title has
    /// the empty one. Where an identifier comes twice, the later pair counts.
    pub fn folder_title_map(&self) -> (r: Vec<(String, String)>)
        ensures
            pair_views(r@) == titles_of(sidebar_nodes(self.sidebar@), false),
    {
        let map = self.collect_nodes();
        map.titles(false)
    }

    /// Returns a list of all bookmarks in the entire sidebar.
    pub fn bookmarks(&self) -> (r: Vec<Bookmark>)
        ensures
            bookmark_views(r@) == sidebar_bookmarks(self.sidebar@),
    {
        let mut bookmarks: Vec<Bookmark> = Vec::new();
        let ghost containers = self.sidebar@;
        let mut c: usize = 0;
        while c < self.sidebar.containers.len()
            invariant
                c <= self.sidebar.containers.len(),
                containers == self.sidebar@,
                bookmark_views(bookmarks@) == sidebar_bookmarks(containers.take(c as int)),
            decreases self.sidebar.containers.len() - c,
        {
            let ghost start = bookmark_views(bookmarks@);
            assert(containers.take(c + 1).drop_last() =~= containers.take(c as int));
            match &self.sidebar.containers[c] {
                SidebarContainer::SpacesAndItems(inner) => {
                    let ghost items = inner@.items;
                    let mut k: usize = 0;
                    while k < inner.items.len()
                        invariant
                            k <= inner.items.len(),
                            items == item_views(inner.items@),
                            bookmark_views(bookmarks@) == start + item_bookmarks(
                                items.take(k as int),
                            ),
                        decreases inner.items.len() - k,
                    {
                        assert(items.take(k + 1).drop_last() =~= items.take(k as int));
                        let ghost sofar = item_bookmarks(items.take(k as int));
                        match &inner.items[k] {
                            SidebarItemType::Bookmark(bookmark) => {
                                bookmarks.push(bookmark.clone());
                                assert((start + sofar).push(bookmark@) =~= start + (sofar
                                    + seq![bookmark@]));
                            },
                            _ => {},
                        }
                        k += 1;
                    }
                    assert(items.take(inner.items.len() as int) =~= items);
                },
                SidebarContainer::Value(_) => {},
            }
            c += 1;
        }
        assert(containers.take(self.sidebar.containers.len() as int) =~= containers);
        bookmarks
    }
}

} // verus!
