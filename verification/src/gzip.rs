//! The gzip compression wrapper around the TAR container writer.
//!
//! The compression writes into a buffer in memory, and fails only where a
//! write fails: so it does not fail. What it writes holds the time of its
//! making, and is known by what it decompresses to.

use crate::errors::ContextualError;
use crate::path::invalid_path_message;
use crate::path::root_name;
use crate::source::SourceDir;
use crate::tarball::is_tarball_failure;
use crate::tarball::tar_can_hold;
use crate::tarball::tar_append_context;
use crate::tarball::tar_appended;
use crate::tarball::tar_dir;
use crate::tarball::tar_stream;
use std::io::Write;
use vstd::prelude::*;

verus! {

/// `libflate::gzip::Encoder`, carried from its making to its finish.
#[verifier::external_type_specification]
#[verifier::external_body]
#[verifier::reject_recursive_types(W)]
#[verifier::reject_recursive_types(E)]
pub struct ExGzipEncoder<W, E>(libflate::gzip::Encoder<W, E>);

/// `libflate::lz77::DefaultLz77Encoder`, which the encoder's type names.
#[verifier::external_type_specification]
#[verifier::external_body]
pub struct ExDefaultLz77Encoder(libflate::lz77::DefaultLz77Encoder);

/// The bytes that were given to an encoder to compress, so far.
pub uninterp spec fn gzip_input(encoder: libflate::gzip::Encoder<Vec<u8>>) -> Seq<u8>;

/// The bytes that a gzip stream decompresses to: what
/// `libflate::gzip::Decoder` reads from it, where it reads it to its end.
pub uninterp spec fn gzip_payload(stream: Seq<u8>) -> Option<Seq<u8>>;

/// `libflate::gzip::Encoder::new`, on an empty buffer: an encoder that was
/// given nothing. It fails only where the write of the header fails, and a
/// write into a buffer in memory does not.
#[verifier::external_body]
fn gzip_new() -> (encoder: Result<libflate::gzip::Encoder<Vec<u8>>, std::io::Error>)
    ensures
        encoder is Ok,
        encoder matches Ok(e) ==> gzip_input(e) == Seq::<u8>::empty(),
{
    libflate::gzip::Encoder::new(Vec::new())
}

/// `std::io::Write::write_all` on the encoder: `data` follows what the
/// encoder was given. It fails only where a write into the buffer fails.
#[verifier::external_body]
fn gzip_write_all(encoder: &mut libflate::gzip::Encoder<Vec<u8>>, data: &[u8]) -> (written: Result<
    (),
    std::io::Error,
>)
    ensures
        written is Ok,
        gzip_input(*final(encoder)) == gzip_input(*old(encoder)) + data@,
{
    encoder.write_all(data)
}

/// `libflate::gzip::Encoder::finish`: a gzip stream that decompresses to
/// what the encoder was given. It fails only where a write into the buffer
/// fails. The stream holds the time of its making, so the same input gives
/// different streams.
#[verifier::external_body]
fn gzip_finish(encoder: libflate::gzip::Encoder<Vec<u8>>) -> (stream: Result<
    Vec<u8>,
    std::io::Error,
>)
    ensures
        stream is Ok,
        stream matches Ok(v) ==> gzip_payload(v@) == Some(gzip_input(encoder)),
{
    encoder.finish().into_result()
}

/// What stands in `after` behind `before`.
pub open spec fn appended(before: Seq<u8>, after: Seq<u8>) -> Seq<u8> {
    after.skip(before.len() as int)
}

/// `after` is `before` with a gzip stream behind it that decompresses to
/// `payload`.
pub open spec fn gzip_written_to(payload: Seq<u8>, before: Seq<u8>, after: Seq<u8>) -> bool {
    &&& before.is_prefix_of(after)
    &&& gzip_payload(appended(before, after)) == Some(payload)
}

/// What the start of the compression comes to: the encoder, or the error
/// that names the start and holds the cause.
pub fn gzip_started(started: Result<libflate::gzip::Encoder<Vec<u8>>, std::io::Error>) -> (done:
    Result<libflate::gzip::Encoder<Vec<u8>>, ContextualError>)
    ensures
        match started {
            Ok(encoder) => done == Ok::<_, ContextualError>(encoder),
            Err(cause) => done matches Err(e) && e.is_io_error("GZIP"@, cause),
        },
{
    match started {
        Ok(encoder) => Ok(encoder),
        Err(cause) => Err(ContextualError::IoError("GZIP".to_string(), cause)),
    }
}

/// What giving the archive of the directory at `path` to the compression
/// comes to: it succeeded, or it failed and the error attributes the failed
/// append and its cause to the tarball.
pub fn gzip_fed(fed: Result<(), std::io::Error>, path: &[u8]) -> (done: Result<
    (),
    ContextualError,
>)
    ensures
        match fed {
            Ok(()) => done is Ok,
            Err(cause) => done matches Err(e) && e.is_stage_failure(
                "tarball"@,
                tar_append_context(path@),
                cause,
            ),
        },
{
    match tar_appended(fed, path) {
        Ok(()) => Ok(()),
        Err(e) => Err(ContextualError::in_stage("tarball", e)),
    }
}

/// What the finish of the compression comes to: the stream is appended to
/// `out`, or it failed, `out` is as it was and the error names the finish
/// and holds the cause.
pub fn gzip_finished(finished: Result<Vec<u8>, std::io::Error>, out: &mut Vec<u8>) -> (done:
    Result<(), ContextualError>)
    ensures
        match finished {
            Ok(stream) => done is Ok && final(out)@ == old(out)@ + stream@,
            Err(cause) => {
                &&& final(out)@ == old(out)@
                &&& done matches Err(e)
                &&& e.is_io_error("GZIP finish"@, cause)
            },
        },
{
    match finished {
        Ok(mut stream) => {
            out.append(&mut stream);
            Ok(())
        },
        Err(cause) => Err(ContextualError::IoError("GZIP finish".to_string(), cause)),
    }
}

/// Appends to `out` a gzip stream of `data`; `path` is the path of the
/// directory, for the message of a step that fails. The compression is
/// finished after all of `data` was given to it, and before anything is
/// written. No step fails on a buffer in memory, so the stream is always
/// made.
pub fn gzip_bytes(path: &[u8], data: &[u8], out: &mut Vec<u8>) -> (done: Result<
    (),
    ContextualError,
>)
    ensures
        done is Ok,
        gzip_written_to(data@, old(out)@, final(out)@),
{
    let mut encoder = match gzip_started(gzip_new()) {
        Ok(encoder) => encoder,
        Err(e) => {
            return Err(e);
        },
    };
    match gzip_fed(gzip_write_all(&mut encoder, data), path) {
        Ok(()) => {},
        Err(e) => {
            return Err(e);
        },
    }
    let finished = gzip_finish(encoder);
    proof {
        if finished is Ok {
            assert(appended(out@, out@ + finished->Ok_0@) =~= finished->Ok_0@);
        }
    }
    gzip_finished(finished, out)
}

/// `after` is `before` with a gzipped TAR archive of `dir` behind it.
pub open spec fn tar_gz_written_to(
    dir: SourceDir,
    skip_symlinks: bool,
    before: Seq<u8>,
    after: Seq<u8>,
) -> bool {
    &&& root_name(dir.path@) matches Some(name)
    &&& dir.resolves(!skip_symlinks)
    &&& gzip_written_to(tar_stream(dir.records(name, !skip_symlinks)), before, after)
}

/// Writes a gzipped TAR archive of `dir` to `out`.
///
/// The TAR archive is made and finished first, then compressed; the
/// compression is finished before success is reported. The call succeeds
/// where the TAR archive can be made; where it cannot, the error is that of
/// the TAR archive, passed on as it is, and nothing is written.
pub fn tar_gz(dir: &SourceDir, skip_symlinks: bool, out: &mut Vec<u8>) -> (done: Result<
    (),
    ContextualError,
>)
    ensures
        done is Ok <==> tar_can_hold(*dir, skip_symlinks),
        match done {
            Ok(()) => tar_gz_written_to(*dir, skip_symlinks, old(out)@, final(out)@),
            Err(e) => {
                &&& final(out)@ == old(out)@
                &&& if root_name(dir.path@) is None {
                    &&& e matches ContextualError::InvalidPathError(m)
                    &&& m@ == invalid_path_message(dir.path@)
                } else {
                    is_tarball_failure(e, dir.path@)
                }
            },
        },
{
    let mut archive: Vec<u8> = Vec::new();
    match tar_dir(dir, skip_symlinks, &mut archive) {
        Ok(()) => {},
        Err(e) => {
            return Err(e);
        },
    }
    assert(archive@ =~= tar_stream(dir.records(root_name(dir.path@)->0, !skip_symlinks)));
    gzip_bytes(dir.path.as_slice(), archive.as_slice(), out)
}

} // verus!
