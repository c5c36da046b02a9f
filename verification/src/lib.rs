//! Scaffolding for coding-agent plugins: reads the `generate` command line or
//! runs a wizard, renders the minimal OpenCode or PI template for a project,
//! and plans where each file goes. Writing files, running `npm install` and
//! drawing the terminal are left to the caller.
pub mod commands;
pub mod error;
pub mod generator;
pub mod templates;
pub mod text;
pub mod tui;
