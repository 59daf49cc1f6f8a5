//! The web engine's side: what the chrome and a page say to each other, and the tabs.

pub mod formwatch;
pub mod host;
