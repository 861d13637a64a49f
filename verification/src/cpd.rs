//! Parser and validator of the IPU4 CPD (Compact Package Directory)
//! firmware-package format, and assembly of the package directory handed to
//! the firmware.

pub mod bytes;
pub mod consts;
pub mod error;
pub mod parser;
pub mod pkg_dir;
pub mod types;
pub mod view;

pub use consts::CPD_HDR_MARK;
pub use error::{CpdError, Result};
pub use parser::{validate_cpd, validate_cpd_file_with_release, validate_metadata, validate_moduledata, CpdFile, Metadata};
pub use pkg_dir::{build_pkg_dir, PkgDir};
pub use types::{Offset, Size};
pub use view::{CpdEntry, CpdHeader, MetadataComponent, MetadataExtn, ModuleDataHeader};
