//! What every operation comes to, said of what goes in and what comes out: which address is loaded,
//! which file is fetched, where a link leads, what a key and a click do.

pub mod addresses;
pub mod calls;
pub mod engines;
pub mod keys;
pub mod listings;
pub mod lists;
pub mod logins;
pub mod menus;
pub mod news;
pub mod pointer;
pub mod prompts;
pub mod scenes;
pub mod stores;
pub mod tabs;
pub mod values;
pub mod views;
