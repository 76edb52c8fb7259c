//! Paths as the operating system gives them: bytes, with `/` between the
//! components.

use crate::errors::ContextualError;
use vstd::prelude::*;
use vstd::slice::slice_subrange;
use vstd::utf8::*;

verus! {

/// The byte that separates the components of a path.
pub const SEPARATOR: u8 = 0x2f;

/// The byte `.`.
pub const DOT: u8 = 0x2e;

/// The component that stands for the directory itself.
pub open spec fn is_cur_dir(segment: Seq<u8>) -> bool {
    segment.len() == 1 && segment[0] == DOT
}

/// The component that stands for the parent directory.
pub open spec fn is_parent_dir(segment: Seq<u8>) -> bool {
    segment.len() == 2 && segment[0] == DOT && segment[1] == DOT
}

/// `name` stands in `path` from the index `from` on.
pub open spec fn stands_at(path: Seq<u8>, from: int, name: Seq<u8>) -> bool {
    0 <= from && from + name.len() <= path.len() && name == path.subrange(from, from + name.len())
}

/// Where the last segment of `path` begins: behind its last separator, or at
/// 0 where it has none.
pub open spec fn last_segment_start(path: Seq<u8>) -> int
    decreases path.len(),
{
    if path.len() == 0 || path.last() == SEPARATOR {
        path.len() as int
    } else {
        last_segment_start(path.drop_last())
    }
}

/// The final component of `path`: its last segment that is neither empty nor
/// `.`, unless that segment is `..`. A path of separators and `.` alone has
/// none.
pub open spec fn final_component(path: Seq<u8>) -> Option<Seq<u8>>
    decreases path.len(),
{
    if path.len() == 0 {
        None
    } else if path.last() == SEPARATOR {
        final_component(path.drop_last())
    } else {
        let start = last_segment_start(path);
        let segment = path.subrange(start, path.len() as int);
        if is_cur_dir(segment) {
            final_component(path.drop_last())
        } else if is_parent_dir(segment) {
            None
        } else {
            Some(segment)
        }
    }
}

/// The last segment starts inside the path, behind a separator or at its
/// beginning, and holds no separator.
pub proof fn lemma_last_segment_start(path: Seq<u8>)
    ensures
        0 <= last_segment_start(path) <= path.len(),
        last_segment_start(path) > 0 ==> path[last_segment_start(path) - 1] == SEPARATOR,
        forall|i: int| last_segment_start(path) <= i < path.len() ==> path[i] != SEPARATOR,
    decreases path.len(),
{
    if path.len() == 0 || path.last() == SEPARATOR {
    } else {
        let front = path.drop_last();
        lemma_last_segment_start(front);
        let start = last_segment_start(path);
        assert(start > 0 ==> path[start - 1] == front[start - 1]);
        assert forall|i: int| start <= i < path.len() implies path[i] != SEPARATOR by {
            if i < front.len() {
                assert(path[i] == front[i]);
            }
        }
    }
}

/// A final component is a proper name: not empty, without a separator, and
/// neither `.` nor `..`. It is a piece of the path.
pub proof fn lemma_final_component_is_name(path: Seq<u8>)
    ensures
        final_component(path) matches Some(name) ==> {
            &&& name.len() > 0
            &&& forall|i: int| 0 <= i < name.len() ==> name[i] != SEPARATOR
            &&& !is_cur_dir(name)
            &&& !is_parent_dir(name)
            &&& exists|from: int| stands_at(path, from, name)
        },
    decreases path.len(),
{
    if path.len() == 0 {
    } else if path.last() == SEPARATOR {
        lemma_final_component_is_name(path.drop_last());
        if let Some(name) = final_component(path) {
            let from = choose|from: int| stands_at(path.drop_last(), from, name);
            assert(path.drop_last().subrange(from, from + name.len()) =~= path.subrange(
                from,
                from + name.len(),
            ));
            assert(stands_at(path, from, name));
        }
    } else {
        let start = last_segment_start(path);
        lemma_last_segment_start(path);
        let segment = path.subrange(start, path.len() as int);
        if is_cur_dir(segment) {
            let rest = path.drop_last();
            lemma_final_component_is_name(rest);
            if let Some(name) = final_component(path) {
                let from = choose|from: int| stands_at(rest, from, name);
                assert(rest.subrange(from, from + name.len()) =~= path.subrange(
                    from,
                    from + name.len(),
                ));
                assert(stands_at(path, from, name));
            }
        } else if is_parent_dir(segment) {
        } else {
            assert(start < path.len()) by {
                if start == path.len() {
                    assert(path[start - 1] == path.last());
                }
            }
            assert forall|i: int| 0 <= i < segment.len() implies segment[i] != SEPARATOR by {
                assert(segment[i] == path[start + i]);
            }
            assert(segment =~= path.subrange(start, start + segment.len()));
            assert(stands_at(path, start, segment));
        }
    }
}

/// The text of `path`, as messages show it: the path itself where it is
/// valid UTF-8, the word `file` where it is not.
pub open spec fn display(path: Seq<u8>) -> Seq<char> {
    if valid_utf8(path) {
        decode_utf8(path)
    } else {
        "file"@
    }
}

/// `std::str::from_utf8`: the text that `bytes` encode, where they are valid
/// UTF-8, and nothing where they are not.
#[verifier::external_body]
fn text_of(bytes: &[u8]) -> (text: Option<&str>)
    ensures
        text is Some <==> valid_utf8(bytes@),
        text matches Some(s) ==> s@ == decode_utf8(bytes@),
{
    std::str::from_utf8(bytes).ok()
}

/// Where the final component of `path` stands: the index of its first byte
/// and the index behind its last.
pub fn find_final_component(path: &[u8]) -> (found: Option<(usize, usize)>)
    ensures
        match found {
            Some((from, to)) => from < to <= path@.len() && final_component(path@) == Some(
                path@.subrange(from as int, to as int),
            ),
            None => final_component(path@) is None,
        },
{
    let mut end = path.len();
    assert(path@.subrange(0, end as int) =~= path@);
    while end > 0
        invariant
            end <= path@.len(),
            final_component(path@) == final_component(path@.subrange(0, end as int)),
        decreases end,
    {
        let ghost prefix = path@.subrange(0, end as int);
        assert(prefix.last() == path@[end - 1]);
        assert(prefix.drop_last() =~= path@.subrange(0, end - 1));
        if path[end - 1] == SEPARATOR {
            end = end - 1;
        } else {
            let mut start = end;
            while start > 0 && path[start - 1] != SEPARATOR
                invariant
                    start <= end <= path@.len(),
                    last_segment_start(prefix) == last_segment_start(
                        path@.subrange(0, start as int),
                    ),
                    prefix == path@.subrange(0, end as int),
                decreases start,
            {
                let ghost head = path@.subrange(0, start as int);
                assert(head.last() == path@[start - 1]);
                assert(head.drop_last() =~= path@.subrange(0, start - 1));
                start = start - 1;
            }
            proof {
                let head = path@.subrange(0, start as int);
                if start > 0 {
                    assert(head.last() == path@[start - 1]);
                }
                assert(last_segment_start(prefix) == start);
                assert(prefix.subrange(start as int, end as int) =~= path@.subrange(
                    start as int,
                    end as int,
                ));
            }
            let length = end - start;
            if length == 1 && path[start] == DOT {
                end = end - 1;
            } else if length == 2 && path[start] == DOT && path[start + 1] == DOT {
                return None;
            } else {
                return Some((start, end));
            }
        }
    }
    assert(path@.subrange(0, 0) =~= Seq::<u8>::empty());
    None
}

/// The text that names a directory inside an archive made of it: the final
/// component of its path, decoded.
pub open spec fn root_name(path: Seq<u8>) -> Option<Seq<char>> {
    match final_component(path) {
        Some(name) => if valid_utf8(name) {
            Some(decode_utf8(name))
        } else {
            None
        },
        None => None,
    }
}

/// The text of `path` for a message.
pub fn display_text(path: &[u8]) -> (text: String)
    ensures
        text@ == display(path@),
{
    match text_of(path) {
        Some(s) => s.to_string(),
        None => "file".to_string(),
    }
}

/// The message of the invalid-path error for `path`.
pub open spec fn invalid_path_message(path: Seq<u8>) -> Seq<char> {
    if final_component(path) is None {
        "Directory name terminates in \"..\""@
    } else {
        "Directory name contains invalid UTF-8 characters"@
    }
}

/// The name of the directory at `path` inside an archive made of it. Fails
/// with an invalid-path error where the path has no final component or that
/// component is not valid UTF-8.
pub fn directory_name(path: &[u8]) -> (name: Result<String, ContextualError>)
    ensures
        match name {
            Ok(text) => root_name(path@) == Some(text@),
            Err(e) => {
                &&& root_name(path@) is None
                &&& e matches ContextualError::InvalidPathError(m)
                &&& m@ == invalid_path_message(path@)
            },
        },
{
    match find_final_component(path) {
        Some((from, to)) => {
            match text_of(slice_subrange(path, from, to)) {
                Some(text) => Ok(text.to_string()),
                None => Err(
                    ContextualError::InvalidPathError(
                        "Directory name contains invalid UTF-8 characters".to_string(),
                    ),
                ),
            }
        },
        None => Err(
            ContextualError::InvalidPathError("Directory name terminates in \"..\"".to_string()),
        ),
    }
}

} // verus!
