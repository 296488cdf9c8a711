//! Domain layer: value objects and the pure rules of the business (rotation,
//! rating, tags, relative photo paths, project folders, dashboard order).

pub mod error;
pub mod paths;
pub mod photo;
pub mod project;
