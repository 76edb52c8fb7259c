//! What holds of every archive that the library makes.

use crate::gzip::appended;
use crate::gzip::gzip_payload;
use crate::method::ArchiveMethod;
use crate::source::children_records;
use crate::source::join;
use crate::source::node_records;
use crate::source::node_resolves;
use crate::source::Entry;
use crate::source::Node;
use crate::source::Record;
use crate::source::SourceDir;
use crate::zipfile::member_of;
use crate::zipfile::members;
use crate::zipfile::zip_takes_all;
use crate::tarball::tar_takes_all;
use crate::path::root_name;
use vstd::prelude::*;

verus! {

/// `path` lies below `root`, and is not `root`.
pub open spec fn is_below(path: Seq<char>, root: Seq<char>) -> bool {
    path.len() > root.len() && path.subrange(0, root.len() as int) == root && path[root.len() as int]
        == '/'
}

/// `path` is `root` or lies below it.
pub open spec fn is_under(path: Seq<char>, root: Seq<char>) -> bool {
    path == root || is_below(path, root)
}

/// The entry `name` of a directory under `root` lies below `root`.
pub proof fn lemma_join_is_under(prefix: Seq<char>, name: Seq<char>, root: Seq<char>)
    requires
        is_under(prefix, root),
    ensures
        is_under(join(prefix, name), root),
        join(prefix, name) != root,
{
    let path = join(prefix, name);
    assert(path.len() > root.len());
    assert(path.subrange(0, root.len() as int) =~= prefix.subrange(0, root.len() as int));
    if prefix == root {
        assert(prefix.subrange(0, root.len() as int) =~= root);
    } else {
        assert(path[root.len() as int] == prefix[root.len() as int]);
    }
}

/// Every record of a tree archived at a path under `root` lies under
/// `root`.
pub proof fn lemma_node_records_under(node: Node, path: Seq<char>, follow: bool, root: Seq<char>)
    requires
        is_under(path, root),
    ensures
        forall|i: int|
            0 <= i < node_records(node, path, follow).len() ==> is_under(
                (#[trigger] node_records(node, path, follow)[i]).path(),
                root,
            ),
    decreases node, 0nat,
{
    let all = node_records(node, path, follow);
    match node {
        Node::File { meta, data } => {
            assert(all =~= seq![Record::File { path, meta, data: data@ }]);
            assert forall|i: int| 0 <= i < all.len() implies is_under(
                (#[trigger] all[i]).path(),
                root,
            ) by {
                assert(all[i] == Record::File { path, meta, data: data@ });
            }
        },
        Node::Dir { meta, children } => {
            lemma_children_records_under(children@, children@.len(), path, follow, root);
            let below = children_records(children@, children@.len(), path, follow);
            assert(all == seq![Record::Dir { path, meta }] + below);
            assert forall|i: int| 0 <= i < all.len() implies is_under(
                (#[trigger] all[i]).path(),
                root,
            ) by {
                if i > 0 {
                    assert(all[i] == below[i - 1]);
                }
            }
        },
        Node::Symlink { meta, target, referent } => {
            if follow {
                match referent {
                    Some(to) => {
                        lemma_node_records_under(*to, path, follow, root);
                        assert(all == node_records(*to, path, follow));
                    },
                    None => {
                        assert(all =~= Seq::<Record>::empty());
                    },
                }
            } else {
                assert(all =~= seq![Record::Symlink { path, meta, target: target@ }]);
                assert forall|i: int| 0 <= i < all.len() implies is_under(
                    (#[trigger] all[i]).path(),
                    root,
                ) by {
                    assert(all[i] == Record::Symlink { path, meta, target: target@ });
                }
            }
        },
    }
}

/// Every record of the entries of a directory archived at a path under
/// `root` lies under `root`.
pub proof fn lemma_children_records_under(
    children: Seq<Entry>,
    upto: nat,
    prefix: Seq<char>,
    follow: bool,
    root: Seq<char>,
)
    requires
        is_under(prefix, root),
    ensures
        forall|i: int|
            0 <= i < children_records(children, upto, prefix, follow).len() ==> is_under(
                (#[trigger] children_records(children, upto, prefix, follow)[i]).path(),
                root,
            ),
    decreases children, upto,
{
    if upto == 0 || upto > children.len() {
    } else {
        let last = children[upto - 1];
        lemma_children_records_under(children, (upto - 1) as nat, prefix, follow, root);
        lemma_join_is_under(prefix, last.name@, root);
        lemma_node_records_under(last.node, join(prefix, last.name@), follow, root);
        let before = children_records(children, (upto - 1) as nat, prefix, follow);
        let here = node_records(last.node, join(prefix, last.name@), follow);
        let all = children_records(children, upto, prefix, follow);
        assert(all == before + here);
        assert forall|i: int| 0 <= i < all.len() implies is_under((#[trigger] all[i]).path(), root) by {
            if i < before.len() {
                assert(all[i] == before[i]);
            } else {
                assert(all[i] == here[i - before.len()]);
            }
        }
    }
}

/// An archive has one top-level entry, named as the directory is: the first
/// record is the directory itself under that name, and every record lies
/// under it.
pub proof fn lemma_single_top_level_entry(dir: SourceDir, name: Seq<char>, follow: bool)
    ensures
        dir.records(name, follow).len() > 0,
        dir.records(name, follow)[0] == (Record::Dir { path: name, meta: dir.meta }),
        forall|i: int|
            0 <= i < dir.records(name, follow).len() ==> is_under(
                (#[trigger] dir.records(name, follow)[i]).path(),
                name,
            ),
{
    lemma_children_records_under(dir.children@, dir.children@.len(), name, follow, name);
    let all = dir.records(name, follow);
    let below = children_records(dir.children@, dir.children@.len(), name, follow);
    assert forall|i: int| 0 <= i < all.len() implies is_under((#[trigger] all[i]).path(), name) by {
        if i > 0 {
            assert(all[i] == below[i - 1]);
        }
    }
}

/// The entries of the directory are regular files.
pub open spec fn holds_files_only(children: Seq<Entry>) -> bool {
    forall|i: int| 0 <= i < children.len() ==> (#[trigger] children[i]).node is File
}

/// The record of the regular file `entry` of the directory at `prefix`.
pub open spec fn file_record(entry: Entry, prefix: Seq<char>) -> Record {
    Record::File {
        path: join(prefix, entry.name@),
        meta: entry.node->File_meta,
        data: entry.node->File_data@,
    }
}

/// The records of a directory of regular files are those files, one each,
/// in order.
pub proof fn lemma_records_of_files(
    children: Seq<Entry>,
    upto: nat,
    prefix: Seq<char>,
    follow: bool,
)
    requires
        holds_files_only(children),
        upto <= children.len(),
    ensures
        children_records(children, upto, prefix, follow).len() == upto,
        forall|i: int|
            0 <= i < upto ==> #[trigger] children_records(children, upto, prefix, follow)[i]
                == file_record(children[i], prefix),
    decreases upto,
{
    let all = children_records(children, upto, prefix, follow);
    if upto > 0 {
        lemma_records_of_files(children, (upto - 1) as nat, prefix, follow);
        let last = children[upto - 1];
        assert(last.node is File);
        let before = children_records(children, (upto - 1) as nat, prefix, follow);
        let here = node_records(last.node, join(prefix, last.name@), follow);
        assert(here =~= seq![file_record(last, prefix)]);
        assert(all == before + here);
        assert forall|i: int| 0 <= i < upto implies #[trigger] all[i] == file_record(
            children[i],
            prefix,
        ) by {
            if i < upto - 1 {
                assert(all[i] == before[i]);
            }
        }
    }
}

/// The archive of a directory that holds N regular files lists the
/// directory, then the N files: each under the name of the directory and
/// its own, with its own bytes.
pub proof fn lemma_archive_lists_every_file(dir: SourceDir, name: Seq<char>, follow: bool)
    requires
        holds_files_only(dir.children@),
    ensures
        dir.records(name, follow).len() == dir.children@.len() + 1,
        dir.records(name, follow)[0] == (Record::Dir { path: name, meta: dir.meta }),
        forall|i: int|
            0 <= i < dir.children@.len() ==> #[trigger] dir.records(name, follow)[i + 1]
                == file_record(dir.children@[i], name),
{
    lemma_records_of_files(dir.children@, dir.children@.len(), name, follow);
    let all = dir.records(name, follow);
    let below = children_records(dir.children@, dir.children@.len(), name, follow);
    assert forall|i: int| 0 <= i < dir.children@.len() implies #[trigger] all[i + 1]
        == file_record(dir.children@[i], name) by {
        assert(all[i + 1] == below[i]);
    }
}

/// The ZIP entries of a listing of regular files are those files, one each,
/// in order; a directory before them has none.
pub proof fn lemma_members_of_files(records: Seq<Record>, upto: nat)
    requires
        0 < upto <= records.len(),
        records[0] is Dir,
        forall|i: int| 0 < i < records.len() ==> (#[trigger] records[i]) is File,
    ensures
        members(records, upto).len() == upto - 1,
        forall|i: int|
            0 <= i < upto - 1 ==> #[trigger] members(records, upto)[i] == member_of(
                records[i + 1]->File_path,
                records[i + 1]->File_meta,
                records[i + 1]->File_data,
            ),
    decreases upto,
{
    let before = members(records, (upto - 1) as nat);
    let all = members(records, upto);
    if upto > 1 {
        lemma_members_of_files(records, (upto - 1) as nat);
        let last = records[upto - 1];
        assert(last is File);
        assert(all == before.push(member_of(last->File_path, last->File_meta, last->File_data)));
        assert forall|i: int| 0 <= i < upto - 1 implies #[trigger] all[i] == member_of(
            records[i + 1]->File_path,
            records[i + 1]->File_meta,
            records[i + 1]->File_data,
        ) by {
            if i < upto - 2 {
                assert(all[i] == before[i]);
            }
        }
    } else {
        assert(before =~= Seq::empty());
        assert(all == before);
    }
}

/// The ZIP archive of a directory that holds N regular files has N entries:
/// each under the name of the directory and the name of its file, with the
/// bytes of its file.
pub proof fn lemma_zip_lists_every_file(dir: SourceDir, name: Seq<char>, follow: bool)
    requires
        holds_files_only(dir.children@),
    ensures
        members(dir.records(name, follow), dir.records(name, follow).len()).len()
            == dir.children@.len(),
        forall|i: int|
            0 <= i < dir.children@.len() ==> #[trigger] members(
                dir.records(name, follow),
                dir.records(name, follow).len(),
            )[i] == member_of(
                join(name, dir.children@[i].name@),
                dir.children@[i].node->File_meta,
                dir.children@[i].node->File_data@,
            ),
{
    let records = dir.records(name, follow);
    lemma_archive_lists_every_file(dir, name, follow);
    assert forall|i: int| 0 < i < records.len() implies (#[trigger] records[i]) is File by {
        assert(records[(i - 1) + 1] == file_record(dir.children@[i - 1], name));
    }
    lemma_members_of_files(records, records.len());
    assert forall|i: int| 0 <= i < dir.children@.len() implies #[trigger] members(
        records,
        records.len(),
    )[i] == member_of(
        join(name, dir.children@[i].name@),
        dir.children@[i].node->File_meta,
        dir.children@[i].node->File_data@,
    ) by {
        assert(records[i + 1] == file_record(dir.children@[i], name));
    }
}

/// Two directories of regular files with the same listing hold the same
/// files: the listing loses no name, no byte and no order.
pub proof fn lemma_listing_determines_files(
    a: SourceDir,
    b: SourceDir,
    name: Seq<char>,
    follow: bool,
)
    requires
        holds_files_only(a.children@),
        holds_files_only(b.children@),
        a.records(name, follow) == b.records(name, follow),
    ensures
        a.children@.len() == b.children@.len(),
        forall|i: int|
            0 <= i < a.children@.len() ==> {
                &&& (#[trigger] a.children@[i]).name@ == b.children@[i].name@
                &&& a.children@[i].node->File_data@ == b.children@[i].node->File_data@
                &&& a.children@[i].node->File_meta == b.children@[i].node->File_meta
            },
{
    lemma_archive_lists_every_file(a, name, follow);
    lemma_archive_lists_every_file(b, name, follow);
    assert forall|i: int| 0 <= i < a.children@.len() implies {
        &&& (#[trigger] a.children@[i]).name@ == b.children@[i].name@
        &&& a.children@[i].node->File_data@ == b.children@[i].node->File_data@
        &&& a.children@[i].node->File_meta == b.children@[i].node->File_meta
    } by {
        let ea = a.children@[i];
        let eb = b.children@[i];
        assert(a.records(name, follow)[i + 1] == file_record(ea, name));
        assert(b.records(name, follow)[i + 1] == file_record(eb, name));
        let pa = join(name, ea.name@);
        let pb = join(name, eb.name@);
        assert(pa == pb);
        assert(pa.skip((name.len() + 1) as int) =~= ea.name@);
        assert(pb.skip((name.len() + 1) as int) =~= eb.name@);
    }
}

/// A gzipped tarball decompresses to the tarball of the same directory
/// under the same symlink policy.
pub proof fn lemma_tar_gz_decompresses_to_tar(
    dir: SourceDir,
    skip_symlinks: bool,
    tar_before: Seq<u8>,
    tar_after: Seq<u8>,
    gz_before: Seq<u8>,
    gz_after: Seq<u8>,
)
    requires
        ArchiveMethod::Tar.written_to(dir, skip_symlinks, tar_before, tar_after),
        ArchiveMethod::TarGz.written_to(dir, skip_symlinks, gz_before, gz_after),
    ensures
        gzip_payload(appended(gz_before, gz_after)) == Some(appended(tar_before, tar_after)),
{
    assert(appended(tar_before, tar_after) =~= tar_after.skip(tar_before.len() as int));
    let name = crate::path::root_name(dir.path@)->0;
    let stream = crate::tarball::tar_stream(dir.records(name, !skip_symlinks));
    assert((tar_before + stream).skip(tar_before.len() as int) =~= stream);
}

/// A gzipped tarball is made exactly where the tarball is: the compression
/// adds no failure.
pub proof fn lemma_tar_gz_made_where_tar_is(dir: SourceDir, skip_symlinks: bool)
    ensures
        ArchiveMethod::TarGz.can_hold(dir, skip_symlinks) == ArchiveMethod::Tar.can_hold(
            dir,
            skip_symlinks,
        ),
{
}

/// Only the final component of the path of a directory enters its archive:
/// two directories with the same name, metadata and entries have the same
/// records, whatever lies above them.
pub proof fn lemma_parents_do_not_enter(
    a: SourceDir,
    b: SourceDir,
    method: ArchiveMethod,
    name: Seq<char>,
    follow: bool,
)
    requires
        root_name(a.path@) == root_name(b.path@),
        a.meta == b.meta,
        a.children@ == b.children@,
    ensures
        method.can_hold(a, !follow) == method.can_hold(b, !follow),
        a.records(name, follow) == b.records(name, follow),
{
}

/// The tree at `node` holds no symbolic link.
pub open spec fn has_no_links(node: Node) -> bool
    decreases node,
{
    match node {
        Node::File { .. } => true,
        Node::Dir { children, .. } => forall|i: int|
            0 <= i < children@.len() ==> has_no_links((#[trigger] children@[i]).node),
        Node::Symlink { .. } => false,
    }
}

/// None of the entries holds a symbolic link.
pub open spec fn have_no_links(children: Seq<Entry>) -> bool {
    forall|i: int| 0 <= i < children.len() ==> has_no_links((#[trigger] children[i]).node)
}

/// A tree without symbolic links has the same records under both policies,
/// and resolves under both.
pub proof fn lemma_node_without_links(node: Node, path: Seq<char>)
    requires
        has_no_links(node),
    ensures
        node_records(node, path, true) == node_records(node, path, false),
        node_resolves(node, true),
    decreases node, 0nat,
{
    match node {
        Node::File { .. } => {},
        Node::Dir { children, .. } => {
            lemma_entries_without_links(children@, children@.len(), path);
            assert forall|i: int| 0 <= i < children@.len() implies node_resolves(
                (#[trigger] children@[i]).node,
                true,
            ) by {
                lemma_node_without_links(children@[i].node, path);
            }
        },
        Node::Symlink { .. } => {},
    }
}

/// Entries without symbolic links have the same records under both
/// policies.
pub proof fn lemma_entries_without_links(children: Seq<Entry>, upto: nat, prefix: Seq<char>)
    requires
        have_no_links(children),
    ensures
        children_records(children, upto, prefix, true) == children_records(
            children,
            upto,
            prefix,
            false,
        ),
    decreases children, upto,
{
    if upto == 0 || upto > children.len() {
    } else {
        let last = children[upto - 1];
        lemma_entries_without_links(children, (upto - 1) as nat, prefix);
        lemma_node_without_links(last.node, join(prefix, last.name@));
    }
}

/// Where a directory holds no symbolic link, the symlink policy changes
/// nothing: the records are the same, and an archive can be made under one
/// policy exactly where it can under the other.
pub proof fn lemma_policy_is_moot_without_links(
    dir: SourceDir,
    method: ArchiveMethod,
    name: Seq<char>,
)
    requires
        have_no_links(dir.children@),
    ensures
        dir.records(name, true) == dir.records(name, false),
        dir.resolves(true),
        dir.resolves(false),
        method.can_hold(dir, true) == method.can_hold(dir, false),
{
    lemma_entries_without_links(dir.children@, dir.children@.len(), name);
    assert forall|i: int| 0 <= i < dir.children@.len() implies node_resolves(
        (#[trigger] dir.children@[i]).node,
        true,
    ) by {
        lemma_node_without_links(dir.children@[i].node, Seq::empty());
    }
    lemma_skipping_symlinks_resolves(dir);
    if let Some(root) = root_name(dir.path@) {
        lemma_entries_without_links(dir.children@, dir.children@.len(), root);
    }
}

/// Where symbolic links are not followed, none of them can fail the
/// operation: whatever they lead to, or nothing, the tree resolves.
pub proof fn lemma_unfollowed_links_resolve(node: Node)
    ensures
        node_resolves(node, false),
    decreases node,
{
    match node {
        Node::File { .. } => {},
        Node::Dir { children, .. } => {
            assert forall|i: int| 0 <= i < children@.len() implies node_resolves(
                (#[trigger] children@[i]).node,
                false,
            ) by {
                lemma_unfollowed_links_resolve(children@[i].node);
            }
        },
        Node::Symlink { .. } => {},
    }
}

/// With symbolic links skipped, no link can fail the operation, whatever
/// it leads to: an archive is made exactly where the path of the directory
/// ends in a name and the container writer takes every record.
pub proof fn lemma_skipped_links_cannot_fail(dir: SourceDir, method: ArchiveMethod)
    ensures
        method.can_hold(dir, true) <==> {
            &&& root_name(dir.path@) matches Some(name)
            &&& match method {
                ArchiveMethod::Zip => zip_takes_all(dir.records(name, false)),
                _ => tar_takes_all(dir.records(name, false)),
            }
        },
{
    lemma_skipping_symlinks_resolves(dir);
}

/// With symbolic links skipped, a directory always resolves.
pub proof fn lemma_skipping_symlinks_resolves(dir: SourceDir)
    ensures
        dir.resolves(false),
{
    assert forall|i: int| 0 <= i < dir.children@.len() implies node_resolves(
        (#[trigger] dir.children@[i]).node,
        false,
    ) by {
        lemma_unfollowed_links_resolve(dir.children@[i].node);
    }
}

} // verus!
