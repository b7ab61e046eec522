//! A client for the Nextcloud server APIs: WebDAV files, the OCS APIs
//! (sharing, provisioning, capabilities, notifications, user status), the
//! `index.php` image routes, and Login Flow v2.
//!
//! OCS reports failures in the body: a v1 endpoint answers `200 OK` with
//! `ocs.meta.statuscode: 998` for a missing resource. WebDAV uses the status
//! line. [`Error::is_not_found`] and [`Error::is_auth_error`] span both.
//!
//! This crate holds what each request is and what each answer means; the
//! transport that carries them sits on top of it.

pub mod auth;
pub mod capabilities;
pub mod client;
pub mod error;
pub mod files;
pub mod json;
pub mod notifications;
pub mod ocs;
pub mod preview;
pub mod provisioning;
pub mod seqs;
pub mod sharing;
pub mod text;
pub mod user_status;

pub use auth::{Credentials, LoginCredentials};
pub use capabilities::{Capabilities, ServerVersion};
pub use client::{DEFAULT_USER_AGENT, Nextcloud, NextcloudBuilder};
pub use error::{Error, Result};
pub use files::{
    ArchiveFormat, ChunkedUpload, DavPermissions, Depth, FileEntry, FileVersion, MediaKind,
    RangeRead, TrashbinEntry, UploadResult, path,
};
pub use notifications::{Notification, NotificationAction};
pub use ocs::{OcsMeta, OcsResponse};
pub use preview::{Preview, PreviewMode, PreviewOptions, Previews};
pub use provisioning::{AppFilter, NewUser, UserField};
pub use sharing::{NewShare, Share, SharePermissions, ShareType, ShareUpdate};
pub use user_status::{StatusType, UserStatus};
