//! A directory tree held in memory, and the listing of what an archive of it
//! holds.

use vstd::prelude::*;

verus! {

/// What is recorded of an entry besides its name and contents.
#[derive(Clone, Copy, Debug, PartialEq, Eq, Structural)]
pub struct Metadata {
    /// The permission bits.
    pub mode: u32,
    /// The time of the last change, in seconds since 1970-01-01T00:00:00Z.
    pub modified: u64,
    /// The user that owns the entry.
    pub uid: u64,
    /// The group that owns the entry.
    pub gid: u64,
}

/// What lies at a path of the tree.
#[derive(Debug)]
pub enum Node {
    /// A regular file and its bytes.
    File { meta: Metadata, data: Vec<u8> },
    /// A directory and its entries, in the order in which they are archived.
    Dir { meta: Metadata, children: Vec<Entry> },
    /// A symbolic link: the text it holds and, where it leads somewhere,
    /// what it leads to.
    Symlink { meta: Metadata, target: String, referent: Option<Box<Node>> },
}

/// A named entry of a directory.
#[derive(Debug)]
pub struct Entry {
    pub name: String,
    pub node: Node,
}

/// The directory to archive: its path as the operating system gives it, and
/// what it holds.
#[derive(Debug)]
pub struct SourceDir {
    pub path: Vec<u8>,
    pub meta: Metadata,
    pub children: Vec<Entry>,
}

/// One record of an archive, as a mathematical value.
pub enum Record {
    File { path: Seq<char>, meta: Metadata, data: Seq<u8> },
    Dir { path: Seq<char>, meta: Metadata },
    Symlink { path: Seq<char>, meta: Metadata, target: Seq<char> },
}

impl Record {
    /// The path of the record inside the archive.
    pub open spec fn path(self) -> Seq<char> {
        match self {
            Record::File { path, .. } => path,
            Record::Dir { path, .. } => path,
            Record::Symlink { path, .. } => path,
        }
    }
}

/// The path of the entry `name` of the directory at `prefix`.
pub open spec fn join(prefix: Seq<char>, name: Seq<char>) -> Seq<char> {
    prefix + seq!['/'] + name
}

/// The records of the tree at `node`, archived at `path`. With `follow`, a
/// symbolic link stands for what it leads to; without, for itself.
pub open spec fn node_records(node: Node, path: Seq<char>, follow: bool) -> Seq<Record>
    decreases node, 0nat,
{
    match node {
        Node::File { meta, data } => seq![Record::File { path, meta, data: data@ }],
        Node::Dir { meta, children } => seq![Record::Dir { path, meta }] + children_records(
            children@,
            children@.len(),
            path,
            follow,
        ),
        Node::Symlink { meta, target, referent } => if follow {
            match referent {
                Some(to) => node_records(*to, path, follow),
                None => Seq::empty(),
            }
        } else {
            seq![Record::Symlink { path, meta, target: target@ }]
        },
    }
}

/// The records of the first `upto` entries of a directory archived at
/// `prefix`, entry after entry.
pub open spec fn children_records(
    children: Seq<Entry>,
    upto: nat,
    prefix: Seq<char>,
    follow: bool,
) -> Seq<Record>
    decreases children, upto,
{
    if upto == 0 || upto > children.len() {
        Seq::empty()
    } else {
        children_records(children, (upto - 1) as nat, prefix, follow) + node_records(
            children[upto - 1].node,
            join(prefix, children[upto - 1].name@),
            follow,
        )
    }
}

/// Every symbolic link that archiving the tree at `node` follows leads
/// somewhere.
pub open spec fn node_resolves(node: Node, follow: bool) -> bool
    decreases node,
{
    match node {
        Node::File { .. } => true,
        Node::Dir { children, .. } => forall|i: int|
            0 <= i < children@.len() ==> node_resolves((#[trigger] children@[i]).node, follow),
        Node::Symlink { referent, .. } => follow ==> match referent {
            Some(to) => node_resolves(*to, follow),
            None => false,
        },
    }
}

impl SourceDir {
    /// The records of an archive of the directory under the name `name`.
    pub open spec fn records(self, name: Seq<char>, follow: bool) -> Seq<Record> {
        seq![Record::Dir { path: name, meta: self.meta }] + children_records(
            self.children@,
            self.children@.len(),
            name,
            follow,
        )
    }

    /// Every symbolic link that archiving the directory follows leads
    /// somewhere.
    pub open spec fn resolves(self, follow: bool) -> bool {
        forall|i: int|
            0 <= i < self.children@.len() ==> node_resolves(
                (#[trigger] self.children@[i]).node,
                follow,
            )
    }
}

/// One record of an archive, as the container writers take it: its path,
/// and what it borrows from the tree.
#[derive(Debug)]
pub enum Item<'a> {
    File { path: String, meta: Metadata, data: &'a Vec<u8> },
    Dir { path: String, meta: Metadata },
    Symlink { path: String, meta: Metadata, target: &'a String },
}

impl<'a> View for Item<'a> {
    type V = Record;

    open spec fn view(&self) -> Record {
        match *self {
            Item::File { path, meta, data } => Record::File { path: path@, meta, data: data@ },
            Item::Dir { path, meta } => Record::Dir { path: path@, meta },
            Item::Symlink { path, meta, target } => Record::Symlink {
                path: path@,
                meta,
                target: target@,
            },
        }
    }
}

/// The records that a sequence of items stands for.
pub open spec fn records_of<'a>(items: Seq<Item<'a>>) -> Seq<Record> {
    Seq::new(items.len(), |i: int| items[i]@)
}

/// The path of the entry `name` of the directory at `prefix`.
pub fn join_path(prefix: &String, name: &String) -> (path: String)
    ensures
        path@ == join(prefix@, name@),
{
    proof {
        reveal_strlit("/");
    }
    let mut path = prefix.clone();
    path.append("/");
    path.append(name.as_str());
    assert("/"@ =~= seq!['/']);
    path
}

impl SourceDir {
    /// The records of an archive of the directory under the name `name`, or
    /// nothing where a symbolic link to follow leads nowhere.
    pub fn listing<'a>(&'a self, name: String, follow: bool) -> (items: Option<Vec<Item<'a>>>)
        ensures
            items is Some <==> self.resolves(follow),
            items matches Some(v) ==> records_of(v@) == self.records(name@, follow),
    {
        let mut items: Vec<Item<'a>> = Vec::new();
        items.push(Item::Dir { path: name.clone(), meta: self.meta });
        assert(records_of(items@) =~= seq![Record::Dir { path: name@, meta: self.meta }]);
        if collect_children(&self.children, &name, follow, &mut items) {
            Some(items)
        } else {
            None
        }
    }
}

/// Adds the records of the tree at `node`, archived at `path`, to `items`.
/// Returns whether every symbolic link to follow led somewhere; where one
/// did not, `items` holds what was added before it.
pub fn collect_node<'a>(
    node: &'a Node,
    path: String,
    follow: bool,
    items: &mut Vec<Item<'a>>,
) -> (ok: bool)
    ensures
        ok == node_resolves(*node, follow),
        ok ==> records_of(final(items)@) == records_of(old(items)@) + node_records(
            *node,
            path@,
            follow,
        ),
    decreases node,
{
    let ghost before = items@;
    match node {
        Node::File { meta, data } => {
            items.push(Item::File { path, meta: *meta, data });
            assert(records_of(items@) =~= records_of(before) + node_records(*node, path@, follow));
            true
        },
        Node::Dir { meta, children } => {
            items.push(Item::Dir { path: path.clone(), meta: *meta });
            assert(records_of(items@) =~= records_of(before) + seq![
                Record::Dir { path: path@, meta: *meta },
            ]);
            collect_children(children, &path, follow, items)
        },
        Node::Symlink { meta, target, referent } => {
            if follow {
                match referent {
                    Some(to) => collect_node(to, path, follow, items),
                    None => false,
                }
            } else {
                items.push(Item::Symlink { path, meta: *meta, target });
                assert(records_of(items@) =~= records_of(before) + node_records(
                    *node,
                    path@,
                    follow,
                ));
                true
            }
        },
    }
}

/// Adds the records of the entries of a directory archived at `prefix` to
/// `items`, entry after entry. Returns whether every symbolic link to follow
/// led somewhere.
pub fn collect_children<'a>(
    children: &'a Vec<Entry>,
    prefix: &String,
    follow: bool,
    items: &mut Vec<Item<'a>>,
) -> (ok: bool)
    ensures
        ok == (forall|i: int|
            0 <= i < children@.len() ==> node_resolves((#[trigger] children@[i]).node, follow)),
        ok ==> records_of(final(items)@) == records_of(old(items)@) + children_records(
            children@,
            children@.len(),
            prefix@,
            follow,
        ),
    decreases children,
{
    let ghost before = records_of(items@);
    let mut i: usize = 0;
    while i < children.len()
        invariant
            i <= children@.len(),
            forall|j: int| 0 <= j < i ==> node_resolves((#[trigger] children@[j]).node, follow),
            records_of(items@) == before + children_records(children@, i as nat, prefix@, follow),
        decreases children@.len() - i,
    {
        let entry = &children[i];
        let path = join_path(prefix, &entry.name);
        let ok = collect_node(&entry.node, path, follow, items);
        if !ok {
            return false;
        }
        i = i + 1;
    }
    true
}

} // verus!
