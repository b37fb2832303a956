//! Lumitray's decision logic: when the preferences file may be written, which
//! queued brightness commands collapse into one, how the flyout window slot
//! changes hands, where the flyout goes on screen, and how the autostart value
//! is encoded for the registry.

pub mod auto_start;
pub mod brightness;
pub mod layout;
pub mod prefs;
pub mod text;
pub mod tray;
pub mod window;
