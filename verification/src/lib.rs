//! Flat-file records for users, projects, configs and collections, with a
//! bcrypt password hasher at the core.

pub mod bcrypt;
pub mod cipher;
pub mod codec;
pub mod collection;
pub mod config;
pub mod custom_structures;
pub mod encryption;
pub mod laws;
pub mod mappings;
pub mod project;
pub mod setup;
pub mod structures;
pub mod tables;
pub mod text;
pub mod user;
