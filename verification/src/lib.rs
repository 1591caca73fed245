//! Verified core of Stratmat, a raid-planning whiteboard for FFXIV fights,
//! and of Tataru, the asset-listing generator that ships with it.

pub mod job;
pub mod text;
pub mod sorting;
pub mod tataru;
pub mod asset_listing;
pub mod waymark;
pub mod spawner;
pub mod conflicts;
pub mod nested;
pub mod lifecycle;
pub mod future;
pub mod arena;
pub mod report;
