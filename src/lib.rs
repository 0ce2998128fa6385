//! A desktop notification service: request decoding, id allocation, the
//! notification lifecycle and the stack layout, with their contracts.
//!
//! The bus side (`Server`) turns requests into lifecycle messages; the loop
//! side (`Controller`) owns the active notifications and turns messages and
//! reports of the presentation into effects; `stack_layout` places them.

pub mod action;
pub mod config;
pub mod css;
pub mod hints;
pub mod id;
pub mod layout;
pub mod lifecycle;
pub mod notification;
pub mod server;
pub mod text;

pub use action::{actions_from_flat, Action};
pub use css::css_glob_export_colors;
pub use config::{Config, Edge, EdgeInfo, Edges, LevelFilter};
pub use hints::{HintValue, Hints, IData};
pub use id::Id;
pub use layout::{square_crop, stack_layout, stack_offsets, Layout};
pub use lifecycle::{Controller, Effect, Entry};
pub use notification::{Details, ImageSource, Message, Reason, Timeout};
pub use server::{Closed, Server, ServerInfo};
pub use text::{escape, text_eq};
