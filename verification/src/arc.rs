//! The Arc browser: its saved sidebar and the links pinned in it.

pub mod browser;
pub mod decode;
pub mod encode;
pub mod sidebar;

pub use browser::Browser;
pub use sidebar::{
    Bookmark as SidebarBookmark, Folder as SidebarFolder, Sidebar, SidebarContainer,
    SidebarItemType, SidebarSpacesAndItemsContainer, SidebarState, SidebarTabData,
    Space as SidebarSpace, SpaceType, Tab,
};
