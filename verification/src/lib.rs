//! Core logic of Renovate Manager: the domain models, the parsing of
//! repository names and pull-request URLs, the label filter that selects
//! Renovate pull requests, and the state machine behind the terminal UI.
pub mod models;
pub mod app;
pub mod text;
pub mod number;
pub mod repo;
pub mod github;
pub mod auth;
pub mod widgets;
pub mod repo_list;
