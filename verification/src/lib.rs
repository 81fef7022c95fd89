//! Verified core logic of the celestial engine: level-of-detail planning for
//! icosphere segments, the bodies and meshes being rendered and the steps of
//! recording a frame, the icosphere metadata format, the remote command
//! protocol, the game stage stack and a few text utilities.

pub mod lod;
pub mod text;
pub mod icosphere;
pub mod remote_api;
pub mod json_comments;
pub mod stages;
pub mod config;
pub mod game;
pub mod celestial_hierarchy;
pub mod meshes;
pub mod recording;

