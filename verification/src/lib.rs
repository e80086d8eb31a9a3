use vstd::prelude::*;

pub mod app;
pub mod arxiv;
pub mod commands;
pub mod config;
pub mod core_api;
pub mod crossref;
pub mod dates;
pub mod details;
pub mod discovery;
pub mod feed_keys;
pub mod feeds;
pub mod fetch;
pub mod fulltext;
pub mod github;
pub mod history;
pub mod history_tab;
pub mod huggingface;
pub mod input;
pub mod intent;
pub mod leader;
pub mod library;
pub mod merge;
pub mod models;
pub mod mouse;
pub mod order;
pub mod panes;
pub mod redraw;
pub mod rss;
pub mod sanitize;
pub mod scrolling;
pub mod semantic_scholar;
pub mod session;
pub mod settings_view;
pub mod sources_popup;
pub mod sets;
pub mod store;
pub mod strs;
pub mod syntax;
pub mod tags;
pub mod text;
pub mod view;
pub mod theme;
pub mod theme_picker;
pub mod tools;
pub mod xml;

verus! {
}
