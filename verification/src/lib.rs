//! The logic of a clipboard history tool that lives as a floating ball on the
//! desktop: the history list, the settings, the window's geometry, the
//! clipboard watcher's decisions and those of the app's commands.
pub mod commands;
pub mod history;
pub mod monitor;
pub mod settings;
pub mod text;
pub mod window;
