//! Core state of a desktop editor shell: the recently-opened-files list and
//! its persisted record, the launch-time pending-file mailbox, the model of
//! the "Open Recent" menu, the menu-click dispatcher, the script strings sent
//! to the UI layer, and the decisions of the system-integration installer.
//!
//! Everything here is synchronous, in-memory logic; the surrounding shell does
//! the file reads and writes, drives the native menu, and runs the installer's
//! filesystem steps between the decisions made here.

pub mod bridge;
pub mod codec;
pub mod dispatch;
pub mod installer;
pub mod menu;
pub mod paths;
pub mod pending;
pub mod recent;
pub mod text;
