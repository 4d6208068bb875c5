//! Core logic of the node.in.net desktop client: text handling, translation
//! catalogs, paths, file listings, version checks and the SOCKS5 redirect.

mod text;

pub use text::{chars_of, string_from_chars, parse_u16, decimal_string, trim_chars};
pub mod socks;
pub mod glob;
pub mod i18n;
pub mod updater;
pub mod paths;
pub mod perms;
pub mod sorting;
pub mod panel;
pub mod fm_actions;
pub mod icons;
pub mod drives;
pub mod rdesk;
pub mod registry;
pub mod workspace;
pub mod pane;
pub mod transfers;
pub mod session;
pub mod login;
pub mod graph;
pub mod resources;
pub mod settings;
pub mod net;
pub mod apps;
