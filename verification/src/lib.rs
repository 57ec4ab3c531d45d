//! Verified core of a plugin-based publication metadata ingestion framework.
pub mod cli;
pub mod db;
pub mod domain;
pub mod fetch;
pub mod framing;
pub mod golden;
pub mod host;
pub mod json;
pub mod message;
pub mod plugins;
pub mod session;
pub mod text;
pub mod ui;
pub mod ui_ext;
pub mod view;
pub mod web;
