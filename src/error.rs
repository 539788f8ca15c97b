//! Errors of the library's own logic.
use vstd::prelude::*;

verus! {

/// Why loading content or planning a build failed. Each variant names the
/// offending file or template.
#[derive(Debug)]
pub enum Error {
    /// The path has no final file-name component.
    FileNameMissing { path: String },
    /// The front-matter block of a content file could not be decoded.
    FrontMatterInvalid { path: String, reason: String },
    /// The `date` field of a post does not read `YYYY-MM-DD HH:MM:SS`.
    DateInvalid { path: String, value: String },
    /// A template that the build needs is not among the loaded pages.
    TemplateReferenceNotFound { name: String },
}

} // verus!
