//! A declarative system-tray menu core: a schema of item descriptors is
//! compiled into a live tree of menu nodes, events carrying opaque tokens are
//! correlated back to stable logical item identifiers, and per-item state
//! (checked, enabled) survives full rebuilds triggered by language changes.
//!
//! The embedder owns the native toolkit objects; this crate owns the logic:
//! schema validation and ordering, the compiled tree structure, the
//! correlation registry, the per-item state store with its snapshot/restore
//! protocol, and event dispatch.

pub mod i18n;
pub mod menu;
pub mod menu_items;
pub mod actions;
pub mod config;
pub mod notification;
pub mod text;
