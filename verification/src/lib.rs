//! Verified core of a terminal client for Swagger/OpenAPI described HTTP APIs.
pub mod text;
pub mod json;
pub mod editor;
pub mod editor_laws;
pub mod strmap;
pub mod types;
pub mod groups;
pub mod utils;
pub mod state;
pub mod actions;
pub mod request;
pub mod swagger;
pub mod config;
pub mod navigation;
pub mod editing;
pub mod yank;
pub mod execution;
pub mod modals;
pub mod events;
pub mod views;
pub mod tab_views;
pub mod loading;
pub mod laws;
