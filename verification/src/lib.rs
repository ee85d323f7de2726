use vstd::prelude::*;

pub mod text;
pub mod query;
pub mod palette;
pub mod content;
pub mod image;
pub mod record;
pub mod ai;
pub mod paste;
pub mod tray;
pub mod fgwin;
pub mod monitor;
pub mod sync;
pub mod tagsync;
pub mod sqlite;
pub mod db;
pub mod records;
pub mod security;
pub mod bundle;
pub mod capture;
pub mod tagdb;
pub mod tombstones;
pub mod pipeline;
pub mod search;
pub mod lifecycle;
pub mod history;
pub mod rehash;
pub mod enrich;
pub mod upkeep;
pub mod settings;
pub mod fonts;
