//! Records of the photographer, projects, photos, devices and settings as
//! the commands exchange them with the frontend.
use vstd::prelude::*;
use crate::domain::photo::chars_eq;
use crate::text::chars_of;

verus! {

/// Photographer (local user).
#[derive(Debug, Clone)]
pub struct Photographer {
    pub id: String,
    pub email: String,
    pub alias: String,
    pub active: bool,
    pub deleted: bool,
}

/// Photography project.
#[derive(Debug, Clone)]
pub struct Project {
    pub id: String,
    pub name: String,
    pub description: Option<String>,
    pub created_at: String,
    pub session_date: Option<String>,
    pub archived: bool,
    pub deleted: bool,
    pub creator_id: String,
    pub cover_photo_path: Option<String>,
}

/// Workflow status of a photo.
#[derive(Debug, Clone, PartialEq, Eq, Structural)]
pub enum WorkflowStatus {
    Imported,
    Edited,
    Delivered,
}

/// Stored text of a workflow status.
pub open spec fn workflow_text(w: WorkflowStatus) -> Seq<char> {
    match w {
        WorkflowStatus::Imported => "imported"@,
        WorkflowStatus::Edited => "edited"@,
        WorkflowStatus::Delivered => "delivered"@,
    }
}

impl WorkflowStatus {
    /// The stored text of the status.
    pub fn as_str(&self) -> (s: &'static str)
        ensures
            s@ == workflow_text(*self),
    {
        match self {
            WorkflowStatus::Imported => "imported",
            WorkflowStatus::Edited => "edited",
            WorkflowStatus::Delivered => "delivered",
        }
    }

    /// The status whose stored text is `s`, if any.
    pub fn from_str(s: &str) -> (r: Option<WorkflowStatus>)
        ensures
            r matches Some(w) ==> workflow_text(w) == s@,
            r is None ==> s@ != "imported"@ && s@ != "edited"@ && s@ != "delivered"@,
    {
        let v = chars_of(s);
        if chars_eq(&v, &chars_of("imported")) {
            Some(WorkflowStatus::Imported)
        } else if chars_eq(&v, &chars_of("edited")) {
            Some(WorkflowStatus::Edited)
        } else if chars_eq(&v, &chars_of("delivered")) {
            Some(WorkflowStatus::Delivered)
        } else {
            None
        }
    }
}

/// Reading back the stored text of a status gives the status.
pub proof fn law_workflow_text_roundtrip(a: WorkflowStatus, b: WorkflowStatus)
    ensures
        workflow_text(a) == workflow_text(b) ==> a == b,
{
    reveal_strlit("imported");
    reveal_strlit("edited");
    reveal_strlit("delivered");
    if workflow_text(a) == workflow_text(b) && a != b {
        assert(workflow_text(a).len() != workflow_text(b).len() || workflow_text(a)[0] != workflow_text(b)[0]);
    }
}

/// Backup status (reserved for the planned backup feature).
#[derive(Debug, Clone, PartialEq, Eq, Structural)]
pub enum BackupStatus {
    Pending,
    Uploaded,
    Failed,
}

/// A photo of a project. `exposure_compensation` keeps the EXIF value as
/// its decimal text.
#[derive(Debug, Clone)]
pub struct Photo {
    pub id: String,
    pub project_id: String,
    pub dng_path: String,
    pub jpg_path: Option<String>,
    pub device_uuid: String,
    pub original_camera: Option<String>,
    pub original_format: Option<String>,
    pub import_date: String,
    pub file_hash: Option<String>,
    pub culled: bool,
    pub workflow_status: String,
    pub backup_status: String,
    pub backup_url: Option<String>,
    pub backup_date: Option<String>,
    pub backup_retries: i32,
    pub deleted: bool,
    pub stars: i32,
    pub color_label: Option<String>,
    pub tags: Option<String>,
    pub capture_date: Option<String>,
    pub width: Option<i32>,
    pub height: Option<i32>,
    pub file_size_bytes: Option<i64>,
    pub iso: Option<i32>,
    pub aperture: Option<String>,
    pub shutter_speed: Option<String>,
    pub exposure_compensation: Option<String>,
    pub focal_length: Option<String>,
    pub lens_model: Option<String>,
    pub rotation: i32,
}

/// Photographer metadata embedded on import (XMP / EXIF).
#[derive(Debug, Clone)]
pub struct PhotographerMetadata {
    pub id: String,
    pub photographer_id: String,
    pub artist: Option<String>,
    pub copyright: Option<String>,
    pub contact_email: Option<String>,
    pub contact_url: Option<String>,
    pub contact_phone: Option<String>,
    pub usage_terms: Option<String>,
    pub custom_tags: Option<String>,
}

/// Known device from the registry (global database).
#[derive(Debug, Clone)]
pub struct KnownDevice {
    pub uuid: String,
    pub name: String,
    pub mount_hint: Option<String>,
    pub last_seen: String,
    pub registered_at: String,
}

/// Project summary for the dashboard.
#[derive(Debug, Clone)]
pub struct ProjectDashboard {
    pub id: String,
    pub name: String,
    pub created_at: String,
    pub session_date: Option<String>,
    pub photo_count: i32,
    pub workflow_status: String,
    pub cover_photo_path: Option<String>,
    /// UUID of the device where the project's database lives.
    pub device_uuid: String,
}

/// Request to create a project.
#[derive(Debug, Clone)]
pub struct CreateProject {
    pub name: String,
    pub description: Option<String>,
    pub session_date: Option<String>,
    pub creator_id: String,
    /// UUID of the device where the project database is created.
    pub device_uuid: String,
}

/// Update of the photographer metadata.
#[derive(Debug, Clone)]
pub struct UpdatePhotographerMetadata {
    pub artist: Option<String>,
    pub copyright: Option<String>,
    pub contact_url: Option<String>,
}

/// A photo to insert. `exposure_compensation` keeps the EXIF value as its
/// decimal text.
#[derive(Debug, Clone)]
pub struct CreatePhoto {
    pub project_id: String,
    pub dng_path: String,
    pub device_uuid: String,
    pub original_camera: Option<String>,
    pub original_format: Option<String>,
    pub capture_date: Option<String>,
    pub width: Option<i32>,
    pub height: Option<i32>,
    pub file_size_bytes: Option<i64>,
    pub iso: Option<i32>,
    pub aperture: Option<String>,
    pub shutter_speed: Option<String>,
    pub exposure_compensation: Option<String>,
    pub focal_length: Option<String>,
    pub lens_model: Option<String>,
    pub rotation: i32,
}

/// A keyboard shortcut.
#[derive(Debug, Clone)]
pub struct Keybinding {
    pub action: String,
    pub key: String,
    pub description: String,
}

/// Application settings.
#[derive(Debug, Clone)]
pub struct AppSettings {
    pub embed_metadata_on_import: bool,
}

impl Default for AppSettings {
    fn default() -> (s: Self)
        ensures
            s.embed_metadata_on_import,
    {
        AppSettings { embed_metadata_on_import: true }
    }
}

/// Per-project UI and workflow settings.
#[derive(Debug, Clone)]
pub struct ProjectSettings {
    pub sidebar_open: bool,
    pub show_culled: bool,
    pub min_stars: Option<i32>,
    pub selected_tags: Option<String>,
    pub selected_colors: Option<String>,
    pub stars_filter_mode: Option<String>,
    pub view_mode: Option<String>,
}

impl Default for ProjectSettings {
    fn default() -> (s: Self)
        ensures
            s.sidebar_open,
            !s.show_culled,
            s.min_stars is None,
            s.selected_tags is None,
            s.selected_colors is None,
            s.stars_filter_mode is None,
            s.view_mode is None,
    {
        ProjectSettings {
            sidebar_open: true,
            show_culled: false,
            min_stars: None,
            selected_tags: None,
            selected_colors: None,
            stars_filter_mode: None,
            view_mode: None,
        }
    }
}

} // verus!
