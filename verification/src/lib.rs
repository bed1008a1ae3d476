//! Browsing a storage volume and serving cached JPEG thumbnails for its photos.

pub mod cache;
pub mod codec;
pub mod dispatch;
pub mod inflight;
pub mod listing;
pub mod navigator;
pub mod text;
pub mod volume;
pub mod vpath;
