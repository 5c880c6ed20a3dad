//! Builds a FAT disk image whose contents are described by a declarative
//! manifest: the manifest is parsed into a typed model, CLI overrides are
//! merged with manifest defaults into one effective configuration, destination
//! paths are normalized into component sequences, and the resulting tree is
//! placed into a freshly formatted volume through the FAT formatting library.

pub mod builder;
pub mod config;
pub mod image;
pub mod json;
pub mod manifest;
pub mod paths;


