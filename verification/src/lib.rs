use vstd::prelude::*;

pub mod text;
pub mod search;
pub mod scan;
pub mod domain;
pub mod pathstr;
pub mod bytes;
pub mod apple_tags;
pub mod models;
pub mod application;
pub mod import;
pub mod devices;
pub mod metadata;
pub mod db;
pub mod imaging;
pub mod commands;
pub mod exif;
pub mod finder_tags;
pub mod keyed;

verus! {

} // verus!
