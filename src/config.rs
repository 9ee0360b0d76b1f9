//! Rules: comment styles by file type and license templates by file name.
pub mod comment;
pub mod license;
pub mod matcher;
