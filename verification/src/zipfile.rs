//! The ZIP container writer.
//!
//! An archive holds the regular files of the tree, deflated, in the order
//! in which the tree has them; directories are known by the paths of their
//! files, and an empty directory is not recorded. An entry holds its path,
//! the time of the last change and its bytes.

use crate::errors::io_failure;
use crate::errors::ContextualError;
use crate::path::directory_name;
use crate::path::display;
use crate::path::display_text;
use crate::path::invalid_path_message;
use crate::path::root_name;
use crate::source::records_of;
use crate::source::Item;
use crate::source::Metadata;
use crate::source::Record;
use crate::source::SourceDir;
use vstd::prelude::*;

verus! {

/// The deflate level of the entries.
pub const DEFLATE_LEVEL: u8 = 3;

/// The earliest time that a ZIP entry can hold: 1980-01-01T00:00:00Z.
pub const ZIP_TIME_MIN: u64 = 315532800;

/// The latest time that a ZIP entry can hold: 2107-12-31T23:59:59Z.
pub const ZIP_TIME_MAX: u64 = 4354819199;

/// One file of a ZIP archive, as a mathematical value.
pub struct Member {
    pub name: Seq<char>,
    pub modified: u64,
    pub level: u8,
    pub zip64: bool,
    pub data: Seq<u8>,
}

/// A ZIP archive in the making.
///
/// Holds a `streaming_zip::Archive` that writes into a buffer of its own.
#[verifier::external_body]
pub struct ZipWriter {
    inner: streaming_zip::Archive<Vec<u8>>,
}

/// The files that were added to a writer, in the order in which they were
/// added.
pub uninterp spec fn added_members(writer: ZipWriter) -> Seq<Member>;

/// The bytes of the ZIP archive that holds `members`: what
/// `streaming_zip::Archive::finish` hands back after they were added.
pub uninterp spec fn zip_bytes(members: Seq<Member>) -> Seq<u8>;

/// Whether `streaming_zip::Archive::add_file` takes a file of these bytes at
/// this deflate level. Its writes into a buffer in memory do not fail; it
/// fails where the deflate of the bytes reports a failure, which depends on
/// the level and the bytes alone.
pub uninterp spec fn zip_accepts(level: u8, data: Seq<u8>) -> bool;

/// `streaming_zip::Archive::new`, on an empty buffer: a writer to which
/// nothing was added.
#[verifier::external_body]
fn zip_new() -> (writer: ZipWriter)
    ensures
        added_members(writer) == Seq::<Member>::empty(),
{
    ZipWriter { inner: streaming_zip::Archive::new(Vec::new()) }
}

/// `streaming_zip::Archive::add_file`: it succeeds where it takes the bytes,
/// and the file is then the last of those added. The time is handed over as a UTC date and time
/// (`chrono::DateTime::from_timestamp`); the outside function cannot encode
/// a year before 1980, and the format none after 2107.
#[verifier::external_body]
fn zip_add_file(
    writer: &mut ZipWriter,
    name: &str,
    modified: u64,
    level: u8,
    zip64: bool,
    data: &[u8],
) -> (added: Result<(), std::io::Error>)
    requires
        ZIP_TIME_MIN <= modified <= ZIP_TIME_MAX,
    ensures
        added is Ok <==> zip_accepts(level, data@),
        added is Ok ==> added_members(*final(writer)) == added_members(*old(writer)).push(
            Member { name: name@, modified, level, zip64, data: data@ },
        ),
{
    let time = chrono::DateTime::from_timestamp(modified as i64, 0).unwrap_or_default().naive_utc();
    let mode = streaming_zip::CompressionMode::Deflate(level);
    let mut content = data;
    writer.inner.add_file(name.as_bytes().to_vec(), time, mode, &mut content, zip64)
}

/// `streaming_zip::Archive::finish`: the bytes of the archive of the files
/// that were added. It fails only where a write fails, and a write into a
/// buffer in memory does not.
#[verifier::external_body]
fn zip_finish(writer: ZipWriter) -> (bytes: Result<Vec<u8>, std::io::Error>)
    ensures
        bytes is Ok,
        bytes matches Ok(v) ==> v@ == zip_bytes(added_members(writer)),
{
    writer.inner.finish()
}

/// The time that a ZIP entry holds for a file changed at `modified`: the
/// time itself, or the nearest that the format can hold.
pub open spec fn zip_time(modified: u64) -> u64 {
    if modified < ZIP_TIME_MIN {
        ZIP_TIME_MIN
    } else if modified > ZIP_TIME_MAX {
        ZIP_TIME_MAX
    } else {
        modified
    }
}

/// The ZIP entry of the regular file at `path`.
pub open spec fn member_of(path: Seq<char>, meta: Metadata, data: Seq<u8>) -> Member {
    Member { name: path, modified: zip_time(meta.modified), level: DEFLATE_LEVEL, zip64: false, data }
}

/// The ZIP entries of the first `upto` of `records`: one for each regular
/// file, in order. Directories and symbolic links have none.
pub open spec fn members(records: Seq<Record>, upto: nat) -> Seq<Member>
    decreases upto,
{
    if upto == 0 || upto > records.len() {
        Seq::empty()
    } else {
        let before = members(records, (upto - 1) as nat);
        match records[upto - 1] {
            Record::File { path, meta, data } => before.push(member_of(path, meta, data)),
            _ => before,
        }
    }
}

/// The container writer takes `record`: the bytes of a regular file;
/// nothing is asked of the others, which have no entry.
pub open spec fn zip_takes(record: Record) -> bool {
    record matches Record::File { data, .. } ==> zip_accepts(DEFLATE_LEVEL, data)
}

/// The container writer takes every one of `records`.
pub open spec fn zip_takes_all(records: Seq<Record>) -> bool {
    forall|i: int| 0 <= i < records.len() ==> zip_takes(#[trigger] records[i])
}

/// The ZIP archive of `records`.
pub open spec fn zip_stream(records: Seq<Record>) -> Seq<u8> {
    zip_bytes(members(records, records.len()))
}

/// The context of a failure to append to the archive of the directory at
/// `path`.
pub open spec fn zip_append_context(path: Seq<u8>) -> Seq<char> {
    "Failed to append the content of "@ + display(path) + " to the ZIP archive"@
}

/// The context of a failure to finish the archive.
pub open spec fn zip_finish_context() -> Seq<char> {
    "Failed to finish writing to the ZIP archive"@
}

/// `e` attributes a failure to append to the archive of the directory at
/// `path` to the ZIP stage.
pub open spec fn is_zip_failure(e: ContextualError, path: Seq<u8>) -> bool {
    &&& e matches ContextualError::ArchiveCreationError(stage, inner)
    &&& *inner matches ContextualError::IoError(context, _)
    &&& stage@ == "ZIP"@
    &&& context@ == zip_append_context(path)
}

/// What an append to the archive of the directory at `path` comes to: it
/// succeeded, or it failed and the error attributes the append and its cause
/// to the ZIP stage.
pub fn zip_appended(appended: Result<(), std::io::Error>, path: &[u8]) -> (done: Result<
    (),
    ContextualError,
>)
    ensures
        match appended {
            Ok(()) => done is Ok,
            Err(cause) => done matches Err(e) && e.is_stage_failure(
                "ZIP"@,
                zip_append_context(path@),
                cause,
            ),
        },
{
    match appended {
        Ok(()) => Ok(()),
        Err(cause) => {
            let mut context = "Failed to append the content of ".to_string();
            context.append(display_text(path).as_str());
            context.append(" to the ZIP archive");
            Err(ContextualError::in_stage("ZIP", ContextualError::IoError(context, cause)))
        },
    }
}

/// What the finish of an archive comes to: its bytes are appended to `out`,
/// or it failed, `out` is as it was and the error attributes the finish and
/// its cause to the stage of the ZIP finish.
pub fn zip_finished(finished: Result<Vec<u8>, std::io::Error>, out: &mut Vec<u8>) -> (done: Result<
    (),
    ContextualError,
>)
    ensures
        match finished {
            Ok(bytes) => done is Ok && final(out)@ == old(out)@ + bytes@,
            Err(cause) => {
                &&& final(out)@ == old(out)@
                &&& done matches Err(e)
                &&& e.is_stage_failure("ZIP finish"@, zip_finish_context(), cause)
            },
        },
{
    match finished {
        Ok(mut bytes) => {
            out.append(&mut bytes);
            Ok(())
        },
        Err(cause) => Err(
            ContextualError::in_stage(
                "ZIP finish",
                ContextualError::IoError(
                    "Failed to finish writing to the ZIP archive".to_string(),
                    cause,
                ),
            ),
        ),
    }
}

/// The time that a ZIP entry holds for a file changed at `modified`.
pub fn clamp_time(modified: u64) -> (time: u64)
    ensures
        time == zip_time(modified),
        ZIP_TIME_MIN <= time <= ZIP_TIME_MAX,
{
    if modified < ZIP_TIME_MIN {
        ZIP_TIME_MIN
    } else if modified > ZIP_TIME_MAX {
        ZIP_TIME_MAX
    } else {
        modified
    }
}

/// Appends to `out` the ZIP archive of `items`. Fails where the container
/// writer does not take one of them, with the error of the append; `path` is
/// the path of the directory for the message.
pub fn zip_items(path: &[u8], items: &Vec<Item<'_>>, out: &mut Vec<u8>) -> (done: Result<
    (),
    ContextualError,
>)
    ensures
        done is Ok <==> zip_takes_all(records_of(items@)),
        match done {
            Ok(()) => final(out)@ == old(out)@ + zip_stream(records_of(items@)),
            Err(e) => final(out)@ == old(out)@ && is_zip_failure(e, path@),
        },
{
    let mut writer = zip_new();
    let mut i: usize = 0;
    while i < items.len()
        invariant
            i <= items@.len(),
            added_members(writer) == members(records_of(items@), i as nat),
            forall|j: int| 0 <= j < i ==> zip_takes(#[trigger] records_of(items@)[j]),
            *out == *old(out),
        decreases items@.len() - i,
    {
        match &items[i] {
            Item::File { path: name, meta, data } => {
                let time = clamp_time(meta.modified);
                let appended = zip_add_file(
                    &mut writer,
                    name.as_str(),
                    time,
                    DEFLATE_LEVEL,
                    false,
                    data.as_slice(),
                );
                assert(appended is Ok <==> zip_takes(records_of(items@)[i as int]));
                match zip_appended(appended, path) {
                    Ok(()) => {},
                    Err(e) => {
                        return Err(e);
                    },
                }
            },
            _ => {
                assert(zip_takes(records_of(items@)[i as int]));
            },
        }
        i = i + 1;
    }
    zip_finished(zip_finish(writer), out)
}

/// A ZIP archive of `dir` can be made: its path ends in a name, every
/// symbolic link to follow leads somewhere, and the container writer takes
/// every record.
pub open spec fn zip_can_hold(dir: SourceDir, skip_symlinks: bool) -> bool {
    &&& root_name(dir.path@) matches Some(name)
    &&& dir.resolves(!skip_symlinks)
    &&& zip_takes_all(dir.records(name, !skip_symlinks))
}

/// `after` is `before` with a ZIP archive of `dir` behind it.
pub open spec fn zip_written_to(
    dir: SourceDir,
    skip_symlinks: bool,
    before: Seq<u8>,
    after: Seq<u8>,
) -> bool {
    &&& root_name(dir.path@) matches Some(name)
    &&& dir.resolves(!skip_symlinks)
    &&& after == before + zip_stream(dir.records(name, !skip_symlinks))
}

/// Writes a ZIP archive of `dir` to `out`.
///
/// The directory is the top-level folder of the archive, under the final
/// component of its path. The entries are the regular files of the tree,
/// deflated. With `skip_symlinks`, symbolic links are left out; without,
/// each stands for what it leads to. Where the path of the directory has no
/// final component, or one that is not valid UTF-8, the error is an
/// invalid-path error; every other failure is a failed append, attributed
/// to the ZIP stage. On failure nothing is written.
pub fn zip_dir(dir: &SourceDir, skip_symlinks: bool, out: &mut Vec<u8>) -> (done: Result<
    (),
    ContextualError,
>)
    ensures
        done is Ok <==> zip_can_hold(*dir, skip_symlinks),
        match done {
            Ok(()) => zip_written_to(*dir, skip_symlinks, old(out)@, final(out)@),
            Err(e) => {
                &&& final(out)@ == old(out)@
                &&& if root_name(dir.path@) is None {
                    &&& e matches ContextualError::InvalidPathError(m)
                    &&& m@ == invalid_path_message(dir.path@)
                } else {
                    is_zip_failure(e, dir.path@)
                }
            },
        },
{
    let name = match directory_name(dir.path.as_slice()) {
        Ok(name) => name,
        Err(e) => {
            return Err(e);
        },
    };
    match dir.listing(name, !skip_symlinks) {
        Some(items) => zip_items(dir.path.as_slice(), &items, out),
        None => zip_appended(
            Err(io_failure("a symbolic link leads nowhere")),
            dir.path.as_slice(),
        ),
    }
}

} // verus!
