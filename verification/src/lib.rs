//! Verified core of the TI Out of Box Installer: catalog handling, board
//! matching, target classification, install planning, boot patch planning
//! and the terminal application's state machine.

pub mod app;
pub mod board;
pub mod boot_patch;
pub mod catalog_view;
pub mod console;
pub mod custom_image;
pub mod device;
pub mod digest;
pub mod installer;
pub mod manifest;
pub mod memory;
pub mod network;
pub mod path_order;
pub mod qr;
pub mod resume;
pub mod runner;
pub mod screen;
pub mod sort;
pub mod startup;
pub mod text;
