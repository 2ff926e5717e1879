//! Collection and global definitions: labels, admin and access settings, hooks, auth,
//! uploads, live updates and versioning.

use vstd::prelude::*;
use crate::builders::{AdminConfig, VersionsConfig};
use crate::field::{FieldDefinition, LocalizedString};

verus! {

/// Singular and plural display names.
#[derive(Debug, Default)]
pub struct CollectionLabels {
    pub singular: Option<LocalizedString>,
    pub plural: Option<LocalizedString>,
}

/// Collection-level hook references, by lifecycle position.
#[derive(Debug, Default)]
pub struct CollectionHooks {
    pub before_validate: Vec<String>,
    pub before_change: Vec<String>,
    pub after_change: Vec<String>,
    pub before_read: Vec<String>,
    pub after_read: Vec<String>,
    pub before_delete: Vec<String>,
    pub after_delete: Vec<String>,
    pub before_broadcast: Vec<String>,
}

/// Collection-level access control function references.
#[derive(Debug, Default)]
pub struct CollectionAccess {
    pub read: Option<String>,
    pub create: Option<String>,
    pub update: Option<String>,
    pub delete: Option<String>,
}

/// A custom authentication strategy: its name and the function that authenticates.
#[derive(Debug)]
pub struct AuthStrategy {
    pub name: String,
    pub authenticate: String,
}

/// Authentication settings of an auth collection.
#[derive(Debug)]
pub struct CollectionAuth {
    pub enabled: bool,
    /// Token lifetime in seconds (7200 by default).
    pub token_expiry: u64,
    pub strategies: Vec<AuthStrategy>,
    pub disable_local: bool,
    pub verify_email: bool,
    pub forgot_password: bool,
}

/// How an image is resized into a named size.
#[derive(Debug, Clone, Copy, PartialEq, Eq, Structural)]
pub enum ImageFit {
    Cover,
    Contain,
    Inside,
    Fill,
}

/// A named image size generated for uploads.
#[derive(Debug)]
pub struct ImageSize {
    pub name: String,
    pub width: u32,
    pub height: u32,
    pub fit: ImageFit,
}

/// Encoding quality of a generated image format.
#[derive(Debug, Clone, Copy)]
pub struct FormatQuality {
    pub quality: u8,
}

/// Extra image formats generated for uploads.
#[derive(Debug, Default)]
pub struct FormatOptions {
    pub webp: Option<FormatQuality>,
    pub avif: Option<FormatQuality>,
}

/// Upload settings of an upload collection.
#[derive(Debug)]
pub struct CollectionUpload {
    pub enabled: bool,
    pub mime_types: Vec<String>,
    pub max_file_size: Option<u64>,
    pub image_sizes: Vec<ImageSize>,
    pub admin_thumbnail: Option<String>,
    pub format_options: FormatOptions,
}

/// Live-update setting: off, or a function that decides per event (on when unset).
#[derive(Debug)]
pub enum LiveSetting {
    Disabled,
    Function(String),
}

/// A collection of documents.
#[derive(Debug)]
pub struct CollectionDefinition {
    pub slug: String,
    pub labels: CollectionLabels,
    pub timestamps: bool,
    pub fields: Vec<FieldDefinition>,
    pub admin: AdminConfig,
    pub hooks: CollectionHooks,
    pub auth: Option<CollectionAuth>,
    pub upload: Option<CollectionUpload>,
    pub access: CollectionAccess,
    pub live: Option<LiveSetting>,
    pub versions: Option<VersionsConfig>,
}

/// A global: a single document with its own fields.
#[derive(Debug)]
pub struct GlobalDefinition {
    pub slug: String,
    pub labels: CollectionLabels,
    pub fields: Vec<FieldDefinition>,
    pub hooks: CollectionHooks,
    pub access: CollectionAccess,
    pub live: Option<LiveSetting>,
}

/// An auth collection has auth settings that are enabled.
pub open spec fn is_auth(def: CollectionDefinition) -> bool {
    def.auth matches Some(a) && a.enabled
}

/// An upload collection has upload settings that are enabled.
pub open spec fn is_upload(def: CollectionDefinition) -> bool {
    def.upload matches Some(u) && u.enabled
}

/// Drafts need versioning with drafts on.
pub open spec fn drafts_on(def: CollectionDefinition) -> bool {
    def.versions matches Some(v) && v.drafts
}

impl CollectionDefinition {
    /// Whether the collection holds users that log in.
    pub fn is_auth_collection(&self) -> (r: bool)
        ensures
            r == is_auth(*self),
    {
        match &self.auth {
            Some(a) => a.enabled,
            None => false,
        }
    }

    /// Whether the collection holds uploaded files.
    pub fn is_upload_collection(&self) -> (r: bool)
        ensures
            r == is_upload(*self),
    {
        match &self.upload {
            Some(u) => u.enabled,
            None => false,
        }
    }

    /// Whether documents keep versions.
    pub fn has_versions(&self) -> (r: bool)
        ensures
            r == self.versions is Some,
    {
        self.versions.is_some()
    }

    /// Whether documents can be saved as drafts.
    pub fn has_drafts(&self) -> (r: bool)
        ensures
            r == drafts_on(*self),
    {
        match &self.versions {
            Some(v) => v.drafts,
            None => false,
        }
    }
}

} // verus!
