//! The Finder-tag writer for systems without AppleDouble sidecars: every
//! operation succeeds without touching the disk.
use vstd::prelude::*;
use crate::application::ports::FinderTagWriter;

verus! {

/// A `FinderTagWriter` that does nothing.
pub struct NoopFinderTags;

impl FinderTagWriter for NoopFinderTags {
    fn sync_color(&self, target: &str, color_label: Option<&str>) -> (r: Result<(), String>)
        ensures
            r is Ok,
    {
        Ok(())
    }

    fn move_sidecar(&self, from: &str, to: &str) -> (r: Result<(), String>)
        ensures
            r is Ok,
    {
        Ok(())
    }

    fn spotlight_index_present(&self, volume_root: &str) -> (r: bool)
        ensures
            !r,
    {
        false
    }

    fn invalidate_spotlight_index(&self, volume_root: &str) -> (r: Result<(), String>)
        ensures
            r is Ok,
    {
        Ok(())
    }
}

} // verus!
