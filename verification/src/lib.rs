//! A tiling window manager's verified core: the layout tree, workspaces,
//! command vocabulary, keybind configuration and daemon state trackers.
pub mod adapter;
pub mod cli;
pub mod client;
pub mod command;
pub mod config;
pub mod ipc;
pub mod keybinds;
pub mod labels;
pub mod layout;
pub mod manager;
pub mod platform;
pub mod settings;
pub mod shape;
pub mod state;
pub mod text;
pub mod theme;
pub mod toml_doc;
pub mod tree;
pub mod types;
pub mod workspace;
