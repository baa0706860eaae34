//! Verified core of the Deck Toolbox maintenance helpers.
pub mod backups;
pub mod base64;
pub mod cue;
pub mod disk;
pub mod paths;
pub mod scripts;
pub mod text;
pub mod transport;
