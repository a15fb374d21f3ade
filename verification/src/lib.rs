//! A verified HTML-to-terminal renderer with the surrounding state machines
//! of a small feed reader: rendering context and styles, the document tree
//! walk that produces wrapped, styled text lines, and the event, toast and
//! channel bookkeeping around it.
#![verifier::loop_isolation(false)]

pub mod content;
pub mod context;
pub mod data;
pub mod dom;
pub mod event;
pub mod focus;
pub mod item_list;
pub mod laws;
pub mod line;
pub mod render;
pub mod text;
pub mod toast;

pub use context::Context;
pub use context::ExclusiveModifier;
pub use context::ExclusiveStyle;
pub use context::RenderStatus;
pub use context::StackableModifier;
pub use context::StackableStyle;
pub use dom::Node;
pub use dom::Tag;
pub use render::render;
