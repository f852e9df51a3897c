//! Bounds-checked navigation of 64-bit Portable Executable images: relative
//! virtual addresses are translated through the section table into borrowed
//! views of the backing bytes, and the Load Configuration Directory is read on
//! top of that translation layer.

pub mod error;
pub mod image;
pub mod load_config;

pub use error::Error;
pub use image::{DataDirectoryEntry, Image, SectionHeader};
pub use load_config::{LoadConfig, LoadConfigDirectory, LoadConfigSummary};
