//! Rendering and delivery core of an Android log viewer: the record model,
//! deterministic identifier colours, terminal layout with message wrapping,
//! arguments for re-injecting records through `adb shell log`, and the
//! decisions of the streaming driver.

mod text;
pub mod layout;
pub mod logger;
pub mod pipeline;
pub mod stamps;
pub mod terminal;
pub mod record;
pub mod color;
