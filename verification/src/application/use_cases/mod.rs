//! Use cases: each orchestrates ports around a domain rule.

pub mod cull_photo;
pub mod import_photos;
pub mod rate_photo;
pub mod rotate_photo;
pub mod photo_preview;
pub mod regenerate_thumbnails;
