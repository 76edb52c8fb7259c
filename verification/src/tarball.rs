//! The TAR container writer.
//!
//! An archive holds the directory, then each entry of the tree before what
//! it holds, in the order in which the tree has them. A header holds the
//! path, the type, the mode, the time of the last change, the owner and the
//! size of an entry, and nothing else: no names of owners and no device
//! numbers. Paths of any length are written, with the GNU extension for long
//! names.

use crate::errors::io_failure;
use crate::errors::ContextualError;
use crate::path::directory_name;
use crate::path::display;
use crate::path::display_text;
use crate::path::invalid_path_message;
use crate::path::root_name;
use crate::source::records_of;
use crate::source::Item;
use crate::source::Metadata;
use crate::source::Record;
use crate::source::SourceDir;
use vstd::prelude::*;

verus! {

/// The type byte of a regular file in a TAR header.
pub const TAR_REGULAR: u8 = 0x30;

/// The type byte of a directory in a TAR header.
pub const TAR_DIRECTORY: u8 = 0x35;

/// A TAR archive in the making.
///
/// Holds a `tar::Builder` that writes into a buffer of its own.
#[verifier::external_body]
pub struct TarWriter {
    inner: tar::Builder<Vec<u8>>,
}

/// The bytes that a writer has written so far.
pub uninterp spec fn tar_written(writer: TarWriter) -> Seq<u8>;

/// The bytes of one entry with data: what `tar::Builder::append_data` writes
/// for a fresh GNU header with this type byte, mode, time, owner and the
/// length of `data`, at `path`, followed by `data`. Paths are taken as the
/// platform reads them: this is a function of its arguments on platforms
/// that separate the components of a path by `/` alone.
pub uninterp spec fn tar_entry(
    path: Seq<char>,
    type_byte: u8,
    mode: u32,
    modified: u64,
    uid: u64,
    gid: u64,
    data: Seq<u8>,
) -> Seq<u8>;

/// The bytes of one symbolic link: what `tar::Builder::append_link` writes
/// for a fresh GNU header of a symbolic link with this mode, time and owner,
/// at `path`, leading to `target`. Paths are taken as for `tar_entry`.
pub uninterp spec fn tar_link(
    path: Seq<char>,
    mode: u32,
    modified: u64,
    uid: u64,
    gid: u64,
    target: Seq<char>,
) -> Seq<u8>;

/// Whether `tar::Builder::append_data` takes an entry at `path`. It refuses
/// a path by what the path holds alone (a component `..`, a leading `/`, a
/// NUL, no component at all); a write into a buffer in memory does not
/// fail.
pub uninterp spec fn tar_accepts(path: Seq<char>) -> bool;

/// Whether `tar::Builder::append_link` takes a link at `path` that leads to
/// `target`. It refuses by what the two hold alone.
pub uninterp spec fn tar_accepts_link(path: Seq<char>, target: Seq<char>) -> bool;

/// `tar::Builder::new`, on an empty buffer: a writer that has written
/// nothing.
#[verifier::external_body]
fn tar_new() -> (writer: TarWriter)
    ensures
        tar_written(writer) == Seq::<u8>::empty(),
{
    TarWriter { inner: tar::Builder::new(Vec::new()) }
}

/// `tar::Builder::append_data`, with a header made by `tar::Header::new_gnu`
/// and its setters: it succeeds where it takes the path, and the entry then
/// follows what was written.
#[verifier::external_body]
fn tar_append_data(
    writer: &mut TarWriter,
    path: &str,
    type_byte: u8,
    meta: &Metadata,
    data: &[u8],
) -> (appended: Result<(), std::io::Error>)
    ensures
        appended is Ok <==> tar_accepts(path@),
        appended is Ok ==> tar_written(*final(writer)) == tar_written(*old(writer)) + tar_entry(
            path@,
            type_byte,
            meta.mode,
            meta.modified,
            meta.uid,
            meta.gid,
            data@,
        ),
{
    let mut header = tar::Header::new_gnu();
    header.set_entry_type(tar::EntryType::new(type_byte));
    header.set_mode(meta.mode);
    header.set_mtime(meta.modified);
    header.set_uid(meta.uid);
    header.set_gid(meta.gid);
    header.set_size(data.len() as u64);
    writer.inner.append_data(&mut header, path, data)
}

/// `tar::Builder::append_link`, with a header made by `tar::Header::new_gnu`
/// and its setters: it succeeds where it takes the path and the target, and
/// the link then follows what was written. The header has the type of a symbolic link and the size 0, as the outside
/// function asks of its caller.
#[verifier::external_body]
fn tar_append_link(writer: &mut TarWriter, path: &str, meta: &Metadata, target: &str) -> (appended:
    Result<(), std::io::Error>)
    ensures
        appended is Ok <==> tar_accepts_link(path@, target@),
        appended is Ok ==> tar_written(*final(writer)) == tar_written(*old(writer)) + tar_link(
            path@,
            meta.mode,
            meta.modified,
            meta.uid,
            meta.gid,
            target@,
        ),
{
    let mut header = tar::Header::new_gnu();
    header.set_entry_type(tar::EntryType::Symlink);
    header.set_mode(meta.mode);
    header.set_mtime(meta.modified);
    header.set_uid(meta.uid);
    header.set_gid(meta.gid);
    header.set_size(0);
    writer.inner.append_link(&mut header, path, target)
}

/// `tar::Builder::into_inner`: what was written, followed by the two blocks
/// of zeros that end an archive. It fails only where a write fails, and a
/// write into a buffer in memory does not.
#[verifier::external_body]
fn tar_into_inner(writer: TarWriter) -> (bytes: Result<Vec<u8>, std::io::Error>)
    ensures
        bytes is Ok,
        bytes matches Ok(v) ==> v@ == tar_written(writer) + tar_trailer(),
{
    writer.inner.into_inner()
}

/// The end of a TAR archive: 1024 zero bytes.
pub open spec fn tar_trailer() -> Seq<u8> {
    Seq::new(1024, |i: int| 0u8)
}

/// The bytes of one record in a TAR archive.
pub open spec fn record_bytes(record: Record) -> Seq<u8> {
    match record {
        Record::File { path, meta, data } => tar_entry(
            path,
            TAR_REGULAR,
            meta.mode,
            meta.modified,
            meta.uid,
            meta.gid,
            data,
        ),
        Record::Dir { path, meta } => tar_entry(
            path,
            TAR_DIRECTORY,
            meta.mode,
            meta.modified,
            meta.uid,
            meta.gid,
            Seq::empty(),
        ),
        Record::Symlink { path, meta, target } => tar_link(
            path,
            meta.mode,
            meta.modified,
            meta.uid,
            meta.gid,
            target,
        ),
    }
}

/// The bytes of the first `upto` of `records`, one behind the other.
pub open spec fn tar_body(records: Seq<Record>, upto: nat) -> Seq<u8>
    decreases upto,
{
    if upto == 0 || upto > records.len() {
        Seq::empty()
    } else {
        tar_body(records, (upto - 1) as nat) + record_bytes(records[upto - 1])
    }
}

/// The TAR archive of `records`: their bytes, then the end of the archive.
pub open spec fn tar_stream(records: Seq<Record>) -> Seq<u8> {
    tar_body(records, records.len()) + tar_trailer()
}

/// The container writer takes `record`: its path, and with it the target of
/// a link.
pub open spec fn tar_takes(record: Record) -> bool {
    match record {
        Record::File { path, .. } => tar_accepts(path),
        Record::Dir { path, .. } => tar_accepts(path),
        Record::Symlink { path, target, .. } => tar_accepts_link(path, target),
    }
}

/// The container writer takes every one of `records`.
pub open spec fn tar_takes_all(records: Seq<Record>) -> bool {
    forall|i: int| 0 <= i < records.len() ==> tar_takes(#[trigger] records[i])
}

/// The context of a failure to append to the archive of the directory at
/// `path`.
pub open spec fn tar_append_context(path: Seq<u8>) -> Seq<char> {
    "Failed to append the content of "@ + display(path) + " to the TAR archive"@
}

/// The context of a failure to finish the archive.
pub open spec fn tar_finish_context() -> Seq<char> {
    "Failed to finish writing the TAR archive"@
}

/// `e` is a failure to append to the archive of the directory at `path`.
pub open spec fn is_tar_failure(e: ContextualError, path: Seq<u8>) -> bool {
    &&& e matches ContextualError::IoError(context, _)
    &&& context@ == tar_append_context(path)
}

/// `e` attributes a failure to append to the archive of the directory at
/// `path` to the tarball.
pub open spec fn is_tarball_failure(e: ContextualError, path: Seq<u8>) -> bool {
    &&& e matches ContextualError::ArchiveCreationError(stage, inner)
    &&& stage@ == "tarball"@
    &&& is_tar_failure(*inner, path)
}

/// What an append to the archive of the directory at `path` comes to: it
/// succeeded, or it failed and the error names the append and holds the
/// cause.
pub fn tar_appended(appended: Result<(), std::io::Error>, path: &[u8]) -> (done: Result<
    (),
    ContextualError,
>)
    ensures
        match appended {
            Ok(()) => done is Ok,
            Err(cause) => done matches Err(e) && e.is_io_error(tar_append_context(path@), cause),
        },
{
    match appended {
        Ok(()) => Ok(()),
        Err(cause) => {
            let mut context = "Failed to append the content of ".to_string();
            context.append(display_text(path).as_str());
            context.append(" to the TAR archive");
            Err(ContextualError::IoError(context, cause))
        },
    }
}

/// What the finish of an archive comes to: its bytes are appended to `out`,
/// or it failed, `out` is as it was and the error names the finish and
/// holds the cause.
pub fn tar_finished(finished: Result<Vec<u8>, std::io::Error>, out: &mut Vec<u8>) -> (done: Result<
    (),
    ContextualError,
>)
    ensures
        match finished {
            Ok(bytes) => done is Ok && final(out)@ == old(out)@ + bytes@,
            Err(cause) => {
                &&& final(out)@ == old(out)@
                &&& done matches Err(e)
                &&& e.is_io_error(tar_finish_context(), cause)
            },
        },
{
    match finished {
        Ok(mut bytes) => {
            out.append(&mut bytes);
            Ok(())
        },
        Err(cause) => Err(
            ContextualError::IoError("Failed to finish writing the TAR archive".to_string(), cause),
        ),
    }
}

/// Appends to `out` the TAR archive of `items`. Fails where the container
/// writer does not take one of them, with the error of the append; `path` is
/// the path of the directory for the message.
pub fn tar_items(path: &[u8], items: &Vec<Item<'_>>, out: &mut Vec<u8>) -> (done: Result<
    (),
    ContextualError,
>)
    ensures
        done is Ok <==> tar_takes_all(records_of(items@)),
        match done {
            Ok(()) => final(out)@ == old(out)@ + tar_stream(records_of(items@)),
            Err(e) => final(out)@ == old(out)@ && is_tar_failure(e, path@),
        },
{
    let mut writer = tar_new();
    let none: Vec<u8> = Vec::new();
    let mut i: usize = 0;
    while i < items.len()
        invariant
            i <= items@.len(),
            tar_written(writer) == tar_body(records_of(items@), i as nat),
            forall|j: int| 0 <= j < i ==> tar_takes(#[trigger] records_of(items@)[j]),
            none@ == Seq::<u8>::empty(),
            *out == *old(out),
        decreases items@.len() - i,
    {
        let appended = match &items[i] {
            Item::File { path: name, meta, data } => tar_append_data(
                &mut writer,
                name.as_str(),
                TAR_REGULAR,
                meta,
                data.as_slice(),
            ),
            Item::Dir { path: name, meta } => tar_append_data(
                &mut writer,
                name.as_str(),
                TAR_DIRECTORY,
                meta,
                none.as_slice(),
            ),
            Item::Symlink { path: name, meta, target } => tar_append_link(
                &mut writer,
                name.as_str(),
                meta,
                target.as_str(),
            ),
        };
        assert(appended is Ok <==> tar_takes(records_of(items@)[i as int]));
        match tar_appended(appended, path) {
            Ok(()) => {},
            Err(e) => {
                return Err(e);
            },
        }
        i = i + 1;
    }
    tar_finished(tar_into_inner(writer), out)
}

/// Writes a TAR archive of `src` to `out`, with the directory saved as the
/// folder `inner_folder`.
///
/// The entries are the directory, then each entry of the tree before what it
/// holds, under `inner_folder` and the path from the directory to the entry.
/// With `skip_symlinks`, a symbolic link is saved as a link; without, it
/// stands for what it leads to.
///
/// The archive is made where every symbolic link to follow leads somewhere
/// and the container writer takes every record. Where it is not, the error
/// is that of the append, and nothing is written.
pub fn tar(src: &SourceDir, inner_folder: String, skip_symlinks: bool, out: &mut Vec<u8>) -> (done:
    Result<(), ContextualError>)
    ensures
        done is Ok <==> src.resolves(!skip_symlinks) && tar_takes_all(
            src.records(inner_folder@, !skip_symlinks),
        ),
        match done {
            Ok(()) => final(out)@ == old(out)@ + tar_stream(
                src.records(inner_folder@, !skip_symlinks),
            ),
            Err(e) => final(out)@ == old(out)@ && is_tar_failure(e, src.path@),
        },
{
    match src.listing(inner_folder, !skip_symlinks) {
        Some(items) => tar_items(src.path.as_slice(), &items, out),
        None => tar_appended(
            Err(io_failure("a symbolic link leads nowhere")),
            src.path.as_slice(),
        ),
    }
}

/// A TAR archive of `dir` can be made: its path ends in a name, every
/// symbolic link to follow leads somewhere, and the container writer takes
/// every record.
pub open spec fn tar_can_hold(dir: SourceDir, skip_symlinks: bool) -> bool {
    &&& root_name(dir.path@) matches Some(name)
    &&& dir.resolves(!skip_symlinks)
    &&& tar_takes_all(dir.records(name, !skip_symlinks))
}

/// `after` is `before` with a TAR archive of `dir` behind it.
pub open spec fn tar_written_to(
    dir: SourceDir,
    skip_symlinks: bool,
    before: Seq<u8>,
    after: Seq<u8>,
) -> bool {
    &&& root_name(dir.path@) matches Some(name)
    &&& dir.resolves(!skip_symlinks)
    &&& after == before + tar_stream(dir.records(name, !skip_symlinks))
}

/// Writes a TAR archive of `dir` to `out`.
///
/// The directory is the top-level folder of the archive, under the final
/// component of its path: of `a/b/c` with the files `e`, `f` and `g`, the
/// archive holds `c`, `c/e`, `c/f` and `c/g`. Where the path has no final
/// component, or one that is not valid UTF-8, the error is an invalid-path
/// error; every other failure is a failed append, attributed to the
/// tarball. On failure nothing is written.
pub fn tar_dir(dir: &SourceDir, skip_symlinks: bool, out: &mut Vec<u8>) -> (done: Result<
    (),
    ContextualError,
>)
    ensures
        done is Ok <==> tar_can_hold(*dir, skip_symlinks),
        match done {
            Ok(()) => tar_written_to(*dir, skip_symlinks, old(out)@, final(out)@),
            Err(e) => {
                &&& final(out)@ == old(out)@
                &&& if root_name(dir.path@) is None {
                    &&& e matches ContextualError::InvalidPathError(m)
                    &&& m@ == invalid_path_message(dir.path@)
                } else {
                    is_tarball_failure(e, dir.path@)
                }
            },
        },
{
    let directory = match directory_name(dir.path.as_slice()) {
        Ok(name) => name,
        Err(e) => {
            return Err(e);
        },
    };
    match tar(dir, directory, skip_symlinks, out) {
        Ok(()) => Ok(()),
        Err(e) => Err(ContextualError::in_stage("tarball", e)),
    }
}

} // verus!
