//! A web browser's own logic: the line editor, the internal pages and their stores, the account
//! suggestions, the session file, and the decisions behind the chrome.

pub mod accounts;
pub mod action;
pub mod address;
pub mod browser;
pub mod downloads;
pub mod html;
pub mod input;
pub mod instance;
pub mod labels;
pub mod lineedit;
pub mod menus;
pub mod message;
pub mod modal;
pub mod numerals;
pub mod order;
pub mod outcomes;
pub mod pages;
pub mod paths;
pub mod pixels;
pub mod positions;
pub mod protocol;
pub mod session;
pub mod settings;
pub mod sizes;
pub mod split;
pub mod store;
pub mod text;
pub mod transfers;
pub mod weburl;
pub mod webview;
pub mod wpe;
