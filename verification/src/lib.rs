//! Decision logic of a desktop front end that drives `codex` through a
//! resident PowerShell session: UI command identifiers, UI definition
//! structure, selection handling, Codex output stream filtering, Codex
//! configuration editing, project declaration handling and start-up helpers.

pub mod text;
pub mod paths;
pub mod command;
pub mod codex_output;
pub mod codex_config;
pub mod ui_definition;
pub mod selection;
pub mod objects;
pub mod sorting;
pub mod history;
pub mod app_config;
pub mod project;
pub mod repo_bridge;
pub mod fonts;
pub mod listener;
pub mod ui_session;
pub mod editor;
