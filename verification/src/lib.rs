//! Manager for external MCP server processes run inside named multiplexer
//! sessions: configuration templates, dynamic-argument resolution, launch
//! command construction, a running-instance registry, and the terminal-UI
//! navigation state machine that drives them — together with the intro
//! surfaces, banner arithmetic, status-bar tip and session-path helpers
//! that surround the manager in its program.

pub mod banner;
pub mod browser;
pub mod clock;
pub mod config;
pub mod controller;
pub mod intro;
pub mod intro_screen;
pub mod launcher;
pub mod plugin_ids;
pub mod registry;
pub mod render;
pub mod resolver;
pub mod session_paths;
pub mod strmap;
pub mod template;
pub mod text;
pub mod tips;
