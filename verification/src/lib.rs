//! Consolidates dash-camera event recordings: each event folder holds short
//! clips per camera angle, which are joined into one video per angle and then
//! composed into a single four-quadrant mosaic.
//!
//! The library decides and describes; it performs no file or process work
//! itself. Every effect is handed out as an action for the caller to perform.

pub mod error;
pub mod text;
pub mod paths;
pub mod formats;
pub mod camera;
pub mod catalog;
pub mod clip;
pub mod playlist;
pub mod mosaic;
pub mod plan;
pub mod repository;
