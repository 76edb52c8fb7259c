//! On-the-fly archive generation: a directory tree packaged as a TAR,
//! gzip-compressed TAR or ZIP byte stream.
//!
//! The tree is held in memory ([`source`]); its archive is appended to a
//! buffer of bytes. [`method`] has the archive methods and the one operation
//! that makes an archive; [`tarball`], [`gzip`] and [`zipfile`] have the
//! container writers and the compression; [`path`] finds the name of the
//! directory inside its archive; [`laws`] and [`fidelity`] state what holds
//! of every archive.

pub mod errors;
pub mod fidelity;
pub mod gzip;
pub mod laws;
pub mod method;
pub mod path;
pub mod source;
pub mod tarball;
pub mod zipfile;

pub use errors::ContextualError;
pub use method::ArchiveMethod;
pub use method::ContentEncoding;
