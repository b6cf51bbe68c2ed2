//! Logic of a small environment-variable manager for Windows: how environment
//! variables are updated in the registry, how the Explorer context menu is
//! registered, and how the command line selects what the program does.
//!
//! Everything that touches the registry, the GUI or the process environment
//! lives outside this crate; this crate decides what is read, written and shown.
pub mod text;

pub mod env_utils;
pub mod reg_session;
pub mod setting_app;
pub mod menu_plan;
pub mod reg_effect;
pub mod cli;
