//! Parking notes for a developer's working context.

pub mod text;
pub mod notification;
pub mod paths;
pub mod models;
pub mod config;
pub mod db;
pub mod db_manage;
pub mod git_context;
pub mod export;
pub mod watcher;
