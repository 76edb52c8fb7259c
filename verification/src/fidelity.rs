//! The listing of a tree of directories and regular files loses nothing:
//! two such trees with the same listing are the same tree.

use crate::laws::is_below;
use crate::laws::is_under;
use crate::laws::lemma_node_records_under;
use crate::source::children_records;
use crate::source::join;
use crate::source::node_records;
use crate::source::Entry;
use crate::source::Node;
use crate::source::Record;
use crate::source::SourceDir;
use vstd::prelude::*;

verus! {

/// `name` can name an entry of a directory: it holds no `/`.
pub open spec fn is_name(name: Seq<char>) -> bool {
    forall|i: int| 0 <= i < name.len() ==> name[i] != '/'
}

/// The tree at `node` is made of directories and regular files, each entry
/// under a name that holds no `/`.
pub open spec fn is_plain(node: Node) -> bool
    decreases node,
{
    match node {
        Node::File { .. } => true,
        Node::Dir { children, .. } => forall|i: int|
            0 <= i < children@.len() ==> is_name((#[trigger] children@[i]).name@) && is_plain(
                children@[i].node,
            ),
        Node::Symlink { .. } => false,
    }
}

/// Every entry has a name that holds no `/` and a plain tree.
pub open spec fn are_plain(children: Seq<Entry>) -> bool {
    forall|i: int|
        0 <= i < children.len() ==> is_name((#[trigger] children[i]).name@) && is_plain(
            children[i].node,
        )
}

/// `a` and `b` are the same tree of directories and regular files: the same
/// shape, names, metadata and bytes.
pub open spec fn same_files(a: Node, b: Node) -> bool
    decreases a,
{
    match a {
        Node::File { meta, data } => {
            &&& b matches Node::File { meta: other_meta, data: other_data }
            &&& meta == other_meta
            &&& data@ == other_data@
        },
        Node::Dir { meta, children } => {
            &&& b matches Node::Dir { meta: other_meta, children: other_children }
            &&& meta == other_meta
            &&& children@.len() == other_children@.len()
            &&& forall|i: int|
                0 <= i < children@.len() ==> (#[trigger] children@[i]).name@
                    == other_children@[i].name@ && same_files(
                    children@[i].node,
                    other_children@[i].node,
                )
        },
        Node::Symlink { .. } => false,
    }
}

/// `path` is the path of an entry of the directory at `root` itself.
pub open spec fn is_direct(path: Seq<char>, root: Seq<char>) -> bool {
    is_below(path, root) && forall|j: int| root.len() < j < path.len() ==> path[j] != '/'
}

/// The path of an entry lies below its directory, and directly so where its
/// name holds no `/`. The path gives the name back.
pub proof fn lemma_join(prefix: Seq<char>, name: Seq<char>)
    ensures
        is_below(join(prefix, name), prefix),
        is_name(name) ==> is_direct(join(prefix, name), prefix),
        join(prefix, name).skip((prefix.len() + 1) as int) == name,
        join(prefix, name).len() == prefix.len() + 1 + name.len(),
{
    let path = join(prefix, name);
    assert(path.subrange(0, prefix.len() as int) =~= prefix);
    assert(path.skip((prefix.len() + 1) as int) =~= name);
    if is_name(name) {
        assert forall|j: int| prefix.len() < j < path.len() implies path[j] != '/' by {
            assert(path[j] == name[j - prefix.len() - 1]);
        }
    }
}

/// What lies under an entry of a directory lies below the directory; what
/// lies below the entry is not an entry of the directory itself.
pub proof fn lemma_under_entry(path: Seq<char>, prefix: Seq<char>, name: Seq<char>)
    requires
        is_under(path, join(prefix, name)),
    ensures
        is_below(path, prefix),
        path != join(prefix, name) ==> !is_direct(path, prefix),
{
    let entry = join(prefix, name);
    lemma_join(prefix, name);
    if path == entry {
    } else {
        assert(path.subrange(0, entry.len() as int) == entry);
        assert(path.subrange(0, prefix.len() as int) =~= entry.subrange(0, prefix.len() as int));
        assert(path[prefix.len() as int] == path.subrange(0, entry.len() as int)[prefix.len() as int]);
        assert(path[entry.len() as int] == '/');
    }
}

/// The listing of a plain tree begins with the record of the tree itself,
/// at its path; every other record lies below that path.
pub proof fn lemma_head_record(node: Node, path: Seq<char>, follow: bool)
    requires
        is_plain(node),
    ensures
        node_records(node, path, follow).len() >= 1,
        node_records(node, path, follow)[0] == match node {
            Node::File { meta, data } => Record::File { path, meta, data: data@ },
            Node::Dir { meta, .. } => Record::Dir { path, meta },
            Node::Symlink { meta, target, .. } => Record::Symlink { path, meta, target: target@ },
        },
        node is Dir ==> node_records(node, path, follow).skip(1) == children_records(
            node->Dir_children@,
            node->Dir_children@.len(),
            path,
            follow,
        ),
        node is File ==> node_records(node, path, follow).len() == 1,
        forall|i: int|
            1 <= i < node_records(node, path, follow).len() ==> is_below(
                (#[trigger] node_records(node, path, follow)[i]).path(),
                path,
            ),
{
    let all = node_records(node, path, follow);
    match node {
        Node::File { meta, data } => {
            assert(all =~= seq![Record::File { path, meta, data: data@ }]);
        },
        Node::Dir { meta, children } => {
            let below = children_records(children@, children@.len(), path, follow);
            assert(all == seq![Record::Dir { path, meta }] + below);
            assert(all.skip(1) =~= below);
            lemma_children_records_below(children@, children@.len(), path, follow);
            assert forall|i: int| 1 <= i < all.len() implies is_below(
                (#[trigger] all[i]).path(),
                path,
            ) by {
                assert(all[i] == below[i - 1]);
            }
        },
        Node::Symlink { .. } => {},
    }
}

/// Every record of the entries of a directory lies below the directory.
pub proof fn lemma_children_records_below(
    children: Seq<Entry>,
    upto: nat,
    prefix: Seq<char>,
    follow: bool,
)
    ensures
        forall|i: int|
            0 <= i < children_records(children, upto, prefix, follow).len() ==> is_below(
                (#[trigger] children_records(children, upto, prefix, follow)[i]).path(),
                prefix,
            ),
    decreases upto,
{
    if upto == 0 || upto > children.len() {
    } else {
        let last = children[upto - 1];
        let entry = join(prefix, last.name@);
        lemma_children_records_below(children, (upto - 1) as nat, prefix, follow);
        lemma_node_records_under(last.node, entry, follow, entry);
        let before = children_records(children, (upto - 1) as nat, prefix, follow);
        let here = node_records(last.node, entry, follow);
        let all = children_records(children, upto, prefix, follow);
        assert(all == before + here);
        assert forall|i: int| 0 <= i < all.len() implies is_below(
            (#[trigger] all[i]).path(),
            prefix,
        ) by {
            if i < before.len() {
                assert(all[i] == before[i]);
            } else {
                assert(all[i] == here[i - before.len()]);
                lemma_under_entry(here[i - before.len()].path(), prefix, last.name@);
            }
        }
    }
}

/// The records of the last of the first `upto` entries stand at the end of
/// the listing of those entries: the record of the entry itself, directly
/// in the directory, then records that are not directly in it.
pub proof fn lemma_last_block(children: Seq<Entry>, upto: nat, prefix: Seq<char>, follow: bool)
    requires
        are_plain(children),
        0 < upto <= children.len(),
    ensures
        ({
            let all = children_records(children, upto, prefix, follow);
            let before = children_records(children, (upto - 1) as nat, prefix, follow);
            let here = node_records(
                children[upto - 1].node,
                join(prefix, children[upto - 1].name@),
                follow,
            );
            &&& all == before + here
            &&& here.len() >= 1
            &&& all[before.len() as int].path() == join(prefix, children[upto - 1].name@)
            &&& is_direct(all[before.len() as int].path(), prefix)
            &&& forall|i: int|
                before.len() < i < all.len() ==> !is_direct((#[trigger] all[i]).path(), prefix)
        }),
{
    let last = children[upto - 1];
    let entry = join(prefix, last.name@);
    let all = children_records(children, upto, prefix, follow);
    let before = children_records(children, (upto - 1) as nat, prefix, follow);
    let here = node_records(last.node, entry, follow);
    assert(all == before + here);
    assert(is_name(last.name@) && is_plain(last.node));
    lemma_head_record(last.node, entry, follow);
    lemma_join(prefix, last.name@);
    assert(all[before.len() as int] == here[0]);
    assert forall|i: int| before.len() < i < all.len() implies !is_direct(
        (#[trigger] all[i]).path(),
        prefix,
    ) by {
        let k = i - before.len();
        assert(all[i] == here[k]);
        assert(is_below(here[k].path(), entry));
        lemma_under_entry(here[k].path(), prefix, last.name@);
    }
}

/// Two plain trees with the same listing at the same path are the same
/// tree.
pub proof fn lemma_listing_determines_node(a: Node, b: Node, path: Seq<char>, follow: bool)
    requires
        is_plain(a),
        is_plain(b),
        node_records(a, path, follow) == node_records(b, path, follow),
    ensures
        same_files(a, b),
    decreases a, 0nat,
{
    lemma_head_record(a, path, follow);
    lemma_head_record(b, path, follow);
    match a {
        Node::File { .. } => {},
        Node::Dir { children, .. } => {
            let others = b->Dir_children;
            lemma_listing_determines_entries(
                children@,
                children@.len(),
                others@,
                others@.len(),
                path,
                follow,
            );
        },
        Node::Symlink { .. } => {},
    }
}

/// Two sequences of plain entries whose first entries have the same listing
/// in the same directory are as many, under the same names, with the same
/// trees.
pub proof fn lemma_listing_determines_entries(
    a: Seq<Entry>,
    upto_a: nat,
    b: Seq<Entry>,
    upto_b: nat,
    prefix: Seq<char>,
    follow: bool,
)
    requires
        are_plain(a),
        are_plain(b),
        upto_a <= a.len(),
        upto_b <= b.len(),
        children_records(a, upto_a, prefix, follow) == children_records(
            b,
            upto_b,
            prefix,
            follow,
        ),
    ensures
        upto_a == upto_b,
        forall|i: int|
            0 <= i < upto_a ==> (#[trigger] a[i]).name@ == b[i].name@ && same_files(
                a[i].node,
                b[i].node,
            ),
    decreases a, upto_a,
{
    let all = children_records(a, upto_a, prefix, follow);
    if upto_a == 0 {
        if upto_b > 0 {
            lemma_last_block(b, upto_b, prefix, follow);
        }
    } else if upto_b == 0 {
        lemma_last_block(a, upto_a, prefix, follow);
    } else {
        lemma_last_block(a, upto_a, prefix, follow);
        lemma_last_block(b, upto_b, prefix, follow);
        let last_a = a[upto_a - 1];
        let last_b = b[upto_b - 1];
        let before_a = children_records(a, (upto_a - 1) as nat, prefix, follow);
        let before_b = children_records(b, (upto_b - 1) as nat, prefix, follow);
        let here_a = node_records(last_a.node, join(prefix, last_a.name@), follow);
        let here_b = node_records(last_b.node, join(prefix, last_b.name@), follow);
        assert(before_a.len() == before_b.len()) by {
            if before_a.len() < before_b.len() {
                assert(!is_direct(all[before_b.len() as int].path(), prefix));
            }
            if before_b.len() < before_a.len() {
                assert(!is_direct(all[before_a.len() as int].path(), prefix));
            }
        }
        assert(before_a =~= all.subrange(0, before_a.len() as int));
        assert(before_b =~= all.subrange(0, before_b.len() as int));
        assert(here_a =~= all.skip(before_a.len() as int));
        assert(here_b =~= all.skip(before_b.len() as int));
        lemma_join(prefix, last_a.name@);
        lemma_join(prefix, last_b.name@);
        assert(last_a.name@ == last_b.name@);
        lemma_listing_determines_node(last_a.node, last_b.node, join(prefix, last_a.name@), follow);
        lemma_listing_determines_entries(
            a,
            (upto_a - 1) as nat,
            b,
            (upto_b - 1) as nat,
            prefix,
            follow,
        );
    }
}

/// Round trip: two directories of directories and regular files whose
/// archives list the same records are the same directory. What an archive
/// lists, a reader can build the tree from.
pub proof fn lemma_listing_determines_tree(
    a: SourceDir,
    b: SourceDir,
    name: Seq<char>,
    follow: bool,
)
    requires
        are_plain(a.children@),
        are_plain(b.children@),
        a.records(name, follow) == b.records(name, follow),
    ensures
        a.meta == b.meta,
        a.children@.len() == b.children@.len(),
        forall|i: int|
            0 <= i < a.children@.len() ==> (#[trigger] a.children@[i]).name@
                == b.children@[i].name@ && same_files(a.children@[i].node, b.children@[i].node),
{
    let below_a = children_records(a.children@, a.children@.len(), name, follow);
    let below_b = children_records(b.children@, b.children@.len(), name, follow);
    let head_a = Record::Dir { path: name, meta: a.meta };
    let head_b = Record::Dir { path: name, meta: b.meta };
    assert(a.records(name, follow)[0] == head_a);
    assert(b.records(name, follow)[0] == head_b);
    assert(below_a =~= a.records(name, follow).skip(1));
    assert(below_b =~= b.records(name, follow).skip(1));
    lemma_listing_determines_entries(
        a.children@,
        a.children@.len(),
        b.children@,
        b.children@.len(),
        name,
        follow,
    );
}

} // verus!
