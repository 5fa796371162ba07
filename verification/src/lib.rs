//! SmartHub's core: what the Smart Clipboard, the Text Time Machine,
//! Workspace Modes and the File Declutterer decide, encryption at rest, and
//! the license lifecycle, each function with its contract.
//!
//! Storage, the OS clipboard, the focused-control reader, HTTP and the
//! credential store are reached by the caller, which hands the library plain
//! values and carries out what it decides.

pub mod clipboard;
pub mod crypto;
pub mod db;
pub mod declutter;
pub mod hotkey;
pub mod licensing;
pub mod sort;
pub mod text;
pub mod text_saver;
pub mod workspace;
