//! The closed set of archive methods: their response metadata, and the one
//! operation that makes an archive.

use crate::errors::ContextualError;
use crate::gzip::tar_gz;
use crate::gzip::tar_gz_written_to;
use crate::path::invalid_path_message;
use crate::path::root_name;
use crate::source::SourceDir;
use crate::tarball::is_tarball_failure;
use crate::tarball::tar_can_hold;
use crate::tarball::tar_dir;
use crate::tarball::tar_written_to;
use crate::zipfile::is_zip_failure;
use crate::zipfile::zip_can_hold;
use crate::zipfile::zip_dir;
use crate::zipfile::zip_written_to;
use vstd::prelude::*;

verus! {

/// Available archive methods.
#[derive(Clone, Copy, Debug, PartialEq, Eq, Structural)]
pub enum ArchiveMethod {
    /// Gzipped tarball
    TarGz,
    /// Regular tarball
    Tar,
    /// Regular zip
    Zip,
}

/// The transport-level compression marker of an archive stream.
#[derive(Clone, Copy, Debug, PartialEq, Eq, Structural)]
pub enum ContentEncoding {
    /// The container is sent as it is.
    Identity,
    /// The container is wrapped in a gzip stream.
    Gzip,
}

impl ContentEncoding {
    /// The token of the encoding, as a sequence of characters.
    pub open spec fn spec_token(self) -> Seq<char> {
        match self {
            ContentEncoding::Identity => "identity"@,
            ContentEncoding::Gzip => "gzip"@,
        }
    }

    /// The token of the encoding in a response header.
    pub fn token(self) -> (text: String)
        ensures
            text@ == self.spec_token(),
    {
        match self {
            ContentEncoding::Identity => "identity".to_string(),
            ContentEncoding::Gzip => "gzip".to_string(),
        }
    }
}

impl ArchiveMethod {
    /// The canonical file extension, as a sequence of characters.
    pub open spec fn spec_extension(self) -> Seq<char> {
        match self {
            ArchiveMethod::TarGz => "tar.gz"@,
            ArchiveMethod::Tar => "tar"@,
            ArchiveMethod::Zip => "zip"@,
        }
    }

    /// The MIME content type, as a sequence of characters.
    pub open spec fn spec_content_type(self) -> Seq<char> {
        match self {
            ArchiveMethod::TarGz => "application/gzip"@,
            ArchiveMethod::Tar => "application/tar"@,
            ArchiveMethod::Zip => "application/zip"@,
        }
    }

    /// The content encoding: gzip where a compression wraps the container,
    /// identity where none does.
    pub open spec fn spec_content_encoding(self) -> ContentEncoding {
        match self {
            ArchiveMethod::TarGz => ContentEncoding::Gzip,
            ArchiveMethod::Tar => ContentEncoding::Identity,
            ArchiveMethod::Zip => ContentEncoding::Identity,
        }
    }

    /// The flag of this method among the three.
    pub open spec fn spec_is_enabled(
        self,
        tar_enabled: bool,
        tar_gz_enabled: bool,
        zip_enabled: bool,
    ) -> bool {
        match self {
            ArchiveMethod::TarGz => tar_gz_enabled,
            ArchiveMethod::Tar => tar_enabled,
            ArchiveMethod::Zip => zip_enabled,
        }
    }

    /// `after` is `before` with an archive of `dir` by this method behind
    /// it.
    pub open spec fn written_to(
        self,
        dir: SourceDir,
        skip_symlinks: bool,
        before: Seq<u8>,
        after: Seq<u8>,
    ) -> bool {
        match self {
            ArchiveMethod::TarGz => tar_gz_written_to(dir, skip_symlinks, before, after),
            ArchiveMethod::Tar => tar_written_to(dir, skip_symlinks, before, after),
            ArchiveMethod::Zip => zip_written_to(dir, skip_symlinks, before, after),
        }
    }

    /// An archive of `dir` by this method can be made: the path of `dir`
    /// ends in a name, every symbolic link to follow leads somewhere, and
    /// the container writer takes every record.
    pub open spec fn can_hold(self, dir: SourceDir, skip_symlinks: bool) -> bool {
        match self {
            ArchiveMethod::TarGz => tar_can_hold(dir, skip_symlinks),
            ArchiveMethod::Tar => tar_can_hold(dir, skip_symlinks),
            ArchiveMethod::Zip => zip_can_hold(dir, skip_symlinks),
        }
    }

    /// `e` is the failure of this method behind a valid path: a failed
    /// append of its container writer, attributed to its stage.
    pub open spec fn is_failure(self, e: ContextualError, path: Seq<u8>) -> bool {
        match self {
            ArchiveMethod::TarGz => is_tarball_failure(e, path),
            ArchiveMethod::Tar => is_tarball_failure(e, path),
            ArchiveMethod::Zip => is_zip_failure(e, path),
        }
    }

    /// The canonical file extension.
    pub fn extension(self) -> (text: String)
        ensures
            text@ == self.spec_extension(),
    {
        match self {
            ArchiveMethod::TarGz => "tar.gz".to_string(),
            ArchiveMethod::Tar => "tar".to_string(),
            ArchiveMethod::Zip => "zip".to_string(),
        }
    }

    /// The MIME content type.
    pub fn content_type(self) -> (text: String)
        ensures
            text@ == self.spec_content_type(),
    {
        match self {
            ArchiveMethod::TarGz => "application/gzip".to_string(),
            ArchiveMethod::Tar => "application/tar".to_string(),
            ArchiveMethod::Zip => "application/zip".to_string(),
        }
    }

    /// The content encoding.
    pub fn content_encoding(self) -> (encoding: ContentEncoding)
        ensures
            encoding == self.spec_content_encoding(),
    {
        match self {
            ArchiveMethod::TarGz => ContentEncoding::Gzip,
            ArchiveMethod::Tar => ContentEncoding::Identity,
            ArchiveMethod::Zip => ContentEncoding::Identity,
        }
    }

    /// Whether the method is enabled, given the flag of each method.
    pub fn is_enabled(self, tar_enabled: bool, tar_gz_enabled: bool, zip_enabled: bool) -> (enabled:
        bool)
        ensures
            enabled == self.spec_is_enabled(tar_enabled, tar_gz_enabled, zip_enabled),
    {
        match self {
            ArchiveMethod::TarGz => tar_gz_enabled,
            ArchiveMethod::Tar => tar_enabled,
            ArchiveMethod::Zip => zip_enabled,
        }
    }

    /// Makes an archive out of the given directory, and writes it to `out`.
    ///
    /// Recursively includes all files and subdirectories. With
    /// `skip_symlinks`, symbolic links are not followed: a TAR archive
    /// saves them as links and a ZIP archive leaves them out. Without, each
    /// stands for what it leads to, and one that leads nowhere fails the
    /// operation.
    ///
    /// The archive is made where the path of the directory ends in a name
    /// that is valid UTF-8, every symbolic link to follow leads somewhere,
    /// and the container writer takes every record. Where the path has no
    /// such name, the error is an invalid-path error; every other failure is
    /// a failed append, attributed to the stage of the container. On any
    /// failure `out` is as it was.
    pub fn create_archive(self, dir: &SourceDir, skip_symlinks: bool, out: &mut Vec<u8>) -> (done:
        Result<(), ContextualError>)
        ensures
            done is Ok <==> self.can_hold(*dir, skip_symlinks),
            match done {
                Ok(()) => self.written_to(*dir, skip_symlinks, old(out)@, final(out)@),
                Err(e) => {
                    &&& final(out)@ == old(out)@
                    &&& if root_name(dir.path@) is None {
                        &&& e matches ContextualError::InvalidPathError(m)
                        &&& m@ == invalid_path_message(dir.path@)
                    } else {
                        self.is_failure(e, dir.path@)
                    }
                },
            },
    {
        match self {
            ArchiveMethod::TarGz => tar_gz(dir, skip_symlinks, out),
            ArchiveMethod::Tar => tar_dir(dir, skip_symlinks, out),
            ArchiveMethod::Zip => zip_dir(dir, skip_symlinks, out),
        }
    }
}

} // verus!
