pub mod text;
pub mod ident;
pub mod manifest;
pub mod versions;
pub mod environment;
pub mod paths;
pub mod transaction;
pub mod validation;
pub mod schema;
pub mod compat;
pub mod ecs;
pub mod runtime;
pub mod provider;
pub mod ingame;
pub mod diagnostics;
pub mod logging;
pub mod news;
pub mod config;
pub mod contract;
pub mod loader;
pub mod status;
pub mod updater;
pub mod ui;
pub mod api;
pub mod catalog;
pub mod migration;
pub mod console;
pub mod discovery;
pub mod prepared;
pub mod keyed;
pub mod modules;
pub mod events;
pub mod listing;
pub mod notices;
pub mod activity;
pub mod releases;
pub mod tools;
