//! Backup engine for proprietary console photo assets.
//!
//! The library holds the decision and format logic of the backup
//! pipeline: which files are selected, where each copy goes, when the
//! originals may be deleted, and how the embedded capture date is decoded
//! and the image payload re-encoded.  All filesystem traffic is performed
//! by the caller, which feeds the library plain values (directory scans,
//! file bytes) and executes the plans it returns.

pub mod codec;
pub mod locator;
pub mod orchestrator;
pub mod text;
pub mod transfer;

pub use codec::convert_to_jpeg;
pub use codec::extract_metadata;
pub use locator::verify_has_source_files;
pub use orchestrator::assert_source_and_target_dirs_exist;
pub use orchestrator::backup;
pub use orchestrator::backup_and_convert;
pub use orchestrator::copy_and_convert;
pub use orchestrator::general_backup;
