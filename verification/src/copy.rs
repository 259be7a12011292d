//! Copying a directory tree entry by entry, for when it cannot be renamed
//! into place. Directories are created, regular files are copied, symbolic
//! links are made anew with the text of their target, and every other kind
//! of entry is left out.
//!
//! The caller takes a snapshot of the tree, gets the list of operations to
//! perform in order, and performs them.

use vstd::prelude::*;

verus! {

/// What an entry of a directory is, as far as copying goes.
#[derive(Debug, Clone, Copy, PartialEq, Eq, Structural)]
pub enum EntryKind {
    Symlink,
    Directory,
    File,
    /// A device, a socket, a pipe: nothing that is copied.
    Other,
}

/// The kind of an entry whose metadata, read without following links,
/// answers the three questions as given. A link counts as a link whatever
/// it points to.
pub open spec fn kind_of(is_symlink: bool, is_dir: bool, is_file: bool) -> EntryKind {
    if is_symlink {
        EntryKind::Symlink
    } else if is_dir {
        EntryKind::Directory
    } else if is_file {
        EntryKind::File
    } else {
        EntryKind::Other
    }
}

/// Tells the kind of an entry from its metadata.
pub fn classify(is_symlink: bool, is_dir: bool, is_file: bool) -> (kind: EntryKind)
    ensures
        kind == kind_of(is_symlink, is_dir, is_file),
{
    if is_symlink {
        EntryKind::Symlink
    } else if is_dir {
        EntryKind::Directory
    } else if is_file {
        EntryKind::File
    } else {
        EntryKind::Other
    }
}

/// A snapshot of a directory tree: the kinds and names of its entries, and
/// the targets of its links. Names and targets are held as the bytes that
/// the filesystem has for them, whether or not they are valid Unicode.
#[derive(Debug)]
pub enum Node {
    File,
    /// A symbolic link with its target.
    Link(Vec<u8>),
    /// A directory with its entries in the order found.
    Dir(Vec<Child>),
    Other,
}

/// A named entry of a directory.
#[derive(Debug)]
pub struct Child {
    pub name: Vec<u8>,
    pub node: Node,
}

/// The mathematical value of a [`Node`].
pub enum NodeView {
    File,
    Link(Seq<u8>),
    Dir(Seq<ChildView>),
    Other,
}

/// The mathematical value of a [`Child`].
pub struct ChildView {
    pub name: Seq<u8>,
    pub node: NodeView,
}

/// The value of a node.
pub open spec fn node_view(node: Node) -> NodeView
    decreases node, 0nat,
{
    match node {
        Node::File => NodeView::File,
        Node::Link(target) => NodeView::Link(target@),
        Node::Dir(children) => NodeView::Dir(children_view(children@, children@.len())),
        Node::Other => NodeView::Other,
    }
}

/// The values of the first `n` of `children`.
pub open spec fn children_view(children: Seq<Child>, n: nat) -> Seq<ChildView>
    decreases children, n,
{
    if n == 0 || n > children.len() {
        Seq::empty()
    } else {
        children_view(children, (n - 1) as nat).push(
            ChildView { name: children[n - 1].name@, node: node_view(children[n - 1].node) },
        )
    }
}

impl View for Node {
    type V = NodeView;

    open spec fn view(&self) -> NodeView {
        node_view(*self)
    }
}

impl View for Child {
    type V = ChildView;

    open spec fn view(&self) -> ChildView {
        ChildView { name: self.name@, node: self.node@ }
    }
}

/// A path below the root of a tree: the names from the root down.
pub type Path = Seq<Seq<u8>>;

/// One operation of a copy. Paths are taken below the source's root to
/// read and below the destination's root to write.
#[derive(Debug, Clone, PartialEq, Eq)]
pub enum CopyOp {
    /// Create the directory at `path`.
    CreateDir { path: Vec<Vec<u8>> },
    /// Copy the regular file at `path`.
    CopyFile { path: Vec<Vec<u8>> },
    /// Make a symbolic link at `path` that points to `target`.
    Link { path: Vec<Vec<u8>>, target: Vec<u8> },
}

/// The mathematical value of a [`CopyOp`].
pub enum CopyOpView {
    CreateDir { path: Path },
    CopyFile { path: Path },
    Link { path: Path, target: Seq<u8> },
}

/// The value of a path held as a vector of names.
pub open spec fn path_view(path: Seq<Vec<u8>>) -> Path {
    Seq::new(path.len(), |i: int| path[i]@)
}

impl View for CopyOp {
    type V = CopyOpView;

    open spec fn view(&self) -> CopyOpView {
        match self {
            CopyOp::CreateDir { path } => CopyOpView::CreateDir { path: path_view(path@) },
            CopyOp::CopyFile { path } => CopyOpView::CopyFile { path: path_view(path@) },
            CopyOp::Link { path, target } => CopyOpView::Link {
                path: path_view(path@),
                target: target@,
            },
        }
    }
}

/// The values of a sequence of operations, in order.
pub open spec fn ops_view(ops: Seq<CopyOp>) -> Seq<CopyOpView> {
    Seq::new(ops.len(), |i: int| ops[i]@)
}

/// The operations that copy the tree `node` found at `at`: the node's own
/// first, then those of its entries in order, each entry with all that is
/// below it before the next. Nothing is done for an entry that is neither
/// directory, file nor link.
pub open spec fn plan(node: NodeView, at: Path) -> Seq<CopyOpView>
    decreases node, 0nat,
{
    match node {
        NodeView::File => seq![CopyOpView::CopyFile { path: at }],
        NodeView::Link(target) => seq![CopyOpView::Link { path: at, target }],
        NodeView::Dir(children) => seq![CopyOpView::CreateDir { path: at }] + plan_children(
            children,
            children.len(),
            at,
        ),
        NodeView::Other => Seq::empty(),
    }
}

/// The operations that copy the first `n` of the entries `children` of the
/// directory at `at`.
pub open spec fn plan_children(children: Seq<ChildView>, n: nat, at: Path) -> Seq<CopyOpView>
    decreases children, n,
{
    if n == 0 || n > children.len() {
        Seq::empty()
    } else {
        plan_children(children, (n - 1) as nat, at) + plan(
            children[n - 1].node,
            at.push(children[n - 1].name),
        )
    }
}

/// The values of the first `n` entries are those entries' values, one by
/// one.
pub proof fn lemma_children_view(children: Seq<Child>, n: nat)
    requires
        n <= children.len(),
    ensures
        children_view(children, n).len() == n,
        forall|k: int| 0 <= k < n ==> (#[trigger] children_view(children, n)[k]) == children[k]@,
    decreases n,
{
    if n > 0 {
        lemma_children_view(children, (n - 1) as nat);
    }
}

/// A copy of a name.
fn clone_name(name: &Vec<u8>) -> (r: Vec<u8>)
    ensures
        r@ == name@,
{
    let mut r: Vec<u8> = Vec::new();
    let mut i: usize = 0;
    while i < name.len()
        invariant
            i <= name.len(),
            r@ == name@.take(i as int),
        decreases name.len() - i,
    {
        r.push(name[i]);
        assert(r@ =~= name@.take(i + 1));
        i += 1;
    }
    assert(name@.take(name.len() as int) =~= name@);
    r
}

/// A copy of a path.
fn clone_path(path: &Vec<Vec<u8>>) -> (r: Vec<Vec<u8>>)
    ensures
        path_view(r@) == path_view(path@),
{
    let mut r: Vec<Vec<u8>> = Vec::new();
    let mut i: usize = 0;
    while i < path.len()
        invariant
            i <= path.len(),
            path_view(r@) == path_view(path@).take(i as int),
        decreases path.len() - i,
    {
        let ghost before = r@;
        r.push(clone_name(&path[i]));
        assert(path_view(r@) =~= path_view(before).push(path[i as int]@));
        assert(path_view(path@).take(i + 1) =~= path_view(path@).take(i as int).push(
            path[i as int]@,
        ));
        i += 1;
    }
    assert(path_view(path@).take(path.len() as int) =~= path_view(path@));
    r
}

/// Appends to `ops` the operations that copy the tree `node` found at `at`.
fn plan_into(node: &Node, at: &Vec<Vec<u8>>, ops: &mut Vec<CopyOp>)
    ensures
        ops_view(final(ops)@) == ops_view(old(ops)@) + plan(node@, path_view(at@)),
    decreases node,
{
    let ghost before = ops@;
    match node {
        Node::File => {
            ops.push(CopyOp::CopyFile { path: clone_path(at) });
            assert(ops_view(ops@) =~= ops_view(before) + plan(node@, path_view(at@)));
        },
        Node::Link(target) => {
            ops.push(CopyOp::Link { path: clone_path(at), target: clone_name(target) });
            assert(ops_view(ops@) =~= ops_view(before) + plan(node@, path_view(at@)));
        },
        Node::Other => {
            assert(ops_view(ops@) =~= ops_view(before) + plan(node@, path_view(at@)));
        },
        Node::Dir(children) => {
            let ghost views = children_view(children@, children@.len());
            let ghost here = path_view(at@);
            proof {
                lemma_children_view(children@, children@.len());
            }
            ops.push(CopyOp::CreateDir { path: clone_path(at) });
            assert(ops_view(ops@) =~= ops_view(before) + seq![CopyOpView::CreateDir { path: here }]
                + plan_children(views, 0, here));
            let mut i: usize = 0;
            while i < children.len()
                invariant
                    i <= children.len(),
                    *node == Node::Dir(*children),
                    views.len() == children.len(),
                    forall|k: int| 0 <= k < children.len() ==> (#[trigger] views[k]) == children[k]@,
                    here == path_view(at@),
                    ops_view(ops@) == ops_view(before) + seq![CopyOpView::CreateDir { path: here }]
                        + plan_children(views, i as nat, here),
                decreases children.len() - i,
            {
                let child = &children[i];
                let mut below = clone_path(at);
                let ghost above = below@;
                below.push(clone_name(&child.name));
                assert(path_view(below@) =~= path_view(above).push(child.name@));
                assert(path_view(below@) =~= here.push(child.name@));
                assert(views[i as int] == child@);
                proof {
                    assert(decreases_to!(*node => node->Dir_0));
                    assert(decreases_to!(*children => children@));
                    assert(decreases_to!(children@ => children@[i as int]));
                }
                plan_into(&child.node, &below, ops);
                assert(ops_view(ops@) =~= ops_view(before) + seq![
                    CopyOpView::CreateDir { path: here },
                ] + plan_children(views, (i + 1) as nat, here));
                i += 1;
            }
        },
    }
}

/// The operations that copy the tree `root` to a destination, in the
/// order in which they are to be performed.
pub fn plan_copy(root: &Node) -> (ops: Vec<CopyOp>)
    ensures
        ops_view(ops@) == plan(root@, Seq::empty()),
{
    let mut ops: Vec<CopyOp> = Vec::new();
    let at: Vec<Vec<u8>> = Vec::new();
    plan_into(root, &at, &mut ops);
    assert(path_view(at@) =~= Seq::<Seq<u8>>::empty());
    assert(ops_view(ops@) =~= plan(root@, Seq::empty()));
    ops
}

/// What stands at a path of a directory tree. A file stands for what it
/// holds: a copied file holds what the source's file at the same path
/// holds.
pub enum Item {
    Dir,
    File,
    Link(Seq<u8>),
    Other,
}

/// A directory tree as the items at its paths.
pub type Tree = Map<Path, Item>;

/// The tree that the snapshot `node`, taken at `at`, shows.
pub open spec fn tree_of(node: NodeView, at: Path) -> Tree
    decreases node, 0nat,
{
    match node {
        NodeView::File => map![at => Item::File],
        NodeView::Link(target) => map![at => Item::Link(target)],
        NodeView::Dir(children) => map![at => Item::Dir].union_prefer_right(
            tree_of_children(children, children.len(), at),
        ),
        NodeView::Other => map![at => Item::Other],
    }
}

/// The tree that the first `n` of the entries `children` of the directory
/// at `at` show.
pub open spec fn tree_of_children(children: Seq<ChildView>, n: nat, at: Path) -> Tree
    decreases children, n,
{
    if n == 0 || n > children.len() {
        Map::empty()
    } else {
        tree_of_children(children, (n - 1) as nat, at).union_prefer_right(
            tree_of(children[n - 1].node, at.push(children[n - 1].name)),
        )
    }
}

/// The part of the tree shown by `node` that a copy brings over: all but
/// the entries that are neither directory, file nor link.
pub open spec fn copied_tree(node: NodeView, at: Path) -> Tree
    decreases node, 0nat,
{
    match node {
        NodeView::File => map![at => Item::File],
        NodeView::Link(target) => map![at => Item::Link(target)],
        NodeView::Dir(children) => map![at => Item::Dir].union_prefer_right(
            copied_children(children, children.len(), at),
        ),
        NodeView::Other => Map::empty(),
    }
}

/// The part that a copy brings over of the tree shown by the first `n` of
/// the entries `children` of the directory at `at`.
pub open spec fn copied_children(children: Seq<ChildView>, n: nat, at: Path) -> Tree
    decreases children, n,
{
    if n == 0 || n > children.len() {
        Map::empty()
    } else {
        copied_children(children, (n - 1) as nat, at).union_prefer_right(
            copied_tree(children[n - 1].node, at.push(children[n - 1].name)),
        )
    }
}

/// Whether every entry of the tree shown by `node` is a directory, a file
/// or a link.
pub open spec fn is_plain(node: NodeView) -> bool
    decreases node, 0nat,
{
    match node {
        NodeView::Dir(children) => are_plain(children, children.len()),
        NodeView::Other => false,
        _ => true,
    }
}

/// Whether every entry below the first `n` of `children`, these included,
/// is a directory, a file or a link.
pub open spec fn are_plain(children: Seq<ChildView>, n: nat) -> bool
    decreases children, n,
{
    if n == 0 || n > children.len() {
        true
    } else {
        are_plain(children, (n - 1) as nat) && is_plain(children[n - 1].node)
    }
}

/// The destination after one operation.
pub open spec fn apply(op: CopyOpView, tree: Tree) -> Tree {
    match op {
        CopyOpView::CreateDir { path } => tree.insert(path, Item::Dir),
        CopyOpView::CopyFile { path } => tree.insert(path, Item::File),
        CopyOpView::Link { path, target } => tree.insert(path, Item::Link(target)),
    }
}

/// The destination after the operations `ops`, performed in order on
/// `tree`.
pub open spec fn realize(ops: Seq<CopyOpView>, tree: Tree) -> Tree
    decreases ops.len(),
{
    if ops.len() == 0 {
        tree
    } else {
        apply(ops.last(), realize(ops.drop_last(), tree))
    }
}

/// The path that an operation writes at.
pub open spec fn path_of(op: CopyOpView) -> Path {
    match op {
        CopyOpView::CreateDir { path } => path,
        CopyOpView::CopyFile { path } => path,
        CopyOpView::Link { path, .. } => path,
    }
}

/// Whether `tree` has a directory at `path`.
pub open spec fn has_dir(tree: Tree, path: Path) -> bool {
    tree.contains_key(path) && tree[path] is Dir
}

/// Whether there is a place for an entry at `path` in `tree`: the path is
/// the root's, or the directory above it is there.
pub open spec fn has_place(tree: Tree, path: Path) -> bool {
    path.len() == 0 || has_dir(tree, path.drop_last())
}

/// Whether the operations `ops` can be performed in order on `tree`: each
/// finds the place for what it writes.
pub open spec fn performable(ops: Seq<CopyOpView>, tree: Tree) -> bool
    decreases ops.len(),
{
    ops.len() == 0 || (performable(ops.drop_last(), tree) && has_place(
        realize(ops.drop_last(), tree),
        path_of(ops.last()),
    ))
}

/// Performing a single operation is applying it.
pub proof fn lemma_realize_one(op: CopyOpView, tree: Tree)
    ensures
        realize(seq![op], tree) == apply(op, tree),
{
    let ops = seq![op];
    assert(ops.drop_last() =~= Seq::<CopyOpView>::empty());
    assert(realize(ops.drop_last(), tree) == tree);
    assert(ops.last() == op);
}

/// Performing one list of operations after another is performing the two
/// as one list.
pub proof fn lemma_realize_concat(first: Seq<CopyOpView>, second: Seq<CopyOpView>, tree: Tree)
    ensures
        realize(first + second, tree) == realize(second, realize(first, tree)),
    decreases second.len(),
{
    if second.len() == 0 {
        assert(first + second =~= first);
    } else {
        assert((first + second).drop_last() =~= first + second.drop_last());
        assert((first + second).last() == second.last());
        lemma_realize_concat(first, second.drop_last(), tree);
    }
}

/// Performing the plan for a snapshot adds to the destination the part of
/// the snapshot's tree that a copy brings over, and changes nothing else.
pub proof fn lemma_plan_realizes(node: NodeView, at: Path, tree: Tree)
    ensures
        realize(plan(node, at), tree) == tree.union_prefer_right(copied_tree(node, at)),
    decreases node, 0nat,
{
    match node {
        NodeView::File => {
            let op = CopyOpView::CopyFile { path: at };
            lemma_realize_one(op, tree);
            assert(apply(op, tree) =~= tree.union_prefer_right(copied_tree(node, at)));
        },
        NodeView::Link(target) => {
            let op = CopyOpView::Link { path: at, target };
            lemma_realize_one(op, tree);
            assert(apply(op, tree) =~= tree.union_prefer_right(copied_tree(node, at)));
        },
        NodeView::Other => {
            assert(tree =~= tree.union_prefer_right(copied_tree(node, at)));
        },
        NodeView::Dir(children) => {
            let create = seq![CopyOpView::CreateDir { path: at }];
            let made = tree.insert(at, Item::Dir);
            lemma_realize_one(CopyOpView::CreateDir { path: at }, tree);
            lemma_realize_concat(create, plan_children(children, children.len(), at), tree);
            lemma_children_realize(children, children.len(), at, made);
            assert(made.union_prefer_right(copied_children(children, children.len(), at))
                =~= tree.union_prefer_right(copied_tree(node, at)));
        },
    }
}

/// Performing the plan for the first `n` entries of a directory adds to
/// the destination what a copy brings over of them, and changes nothing
/// else.
pub proof fn lemma_children_realize(children: Seq<ChildView>, n: nat, at: Path, tree: Tree)
    requires
        n <= children.len(),
    ensures
        realize(plan_children(children, n, at), tree) == tree.union_prefer_right(
            copied_children(children, n, at),
        ),
    decreases children, n,
{
    if n == 0 {
        assert(tree =~= tree.union_prefer_right(copied_children(children, n, at)));
    } else {
        let earlier = plan_children(children, (n - 1) as nat, at);
        let child = children[n - 1];
        let below = at.push(child.name);
        lemma_realize_concat(earlier, plan(child.node, below), tree);
        lemma_children_realize(children, (n - 1) as nat, at, tree);
        lemma_plan_realizes(child.node, below, realize(earlier, tree));
        assert(tree.union_prefer_right(
            copied_children(children, (n - 1) as nat, at),
        ).union_prefer_right(copied_tree(child.node, below)) =~= tree.union_prefer_right(
            copied_children(children, n, at),
        ));
    }
}

/// A single operation can be performed where there is a place for what it
/// writes.
pub proof fn lemma_performable_one(op: CopyOpView, tree: Tree)
    ensures
        performable(seq![op], tree) == has_place(tree, path_of(op)),
{
    let ops = seq![op];
    assert(ops.drop_last() =~= Seq::<CopyOpView>::empty());
    assert(performable(ops.drop_last(), tree));
    assert(realize(ops.drop_last(), tree) == tree);
    assert(ops.last() == op);
}

/// Two lists of operations can be performed one after the other where
/// the first can be performed, and the second on what the first leaves.
pub proof fn lemma_performable_concat(first: Seq<CopyOpView>, second: Seq<CopyOpView>, tree: Tree)
    ensures
        performable(first + second, tree) == (performable(first, tree) && performable(
            second,
            realize(first, tree),
        )),
    decreases second.len(),
{
    if second.len() == 0 {
        assert(first + second =~= first);
    } else {
        assert((first + second).drop_last() =~= first + second.drop_last());
        assert((first + second).last() == second.last());
        lemma_performable_concat(first, second.drop_last(), tree);
        lemma_realize_concat(first, second.drop_last(), tree);
    }
}

/// What a copy brings over of a snapshot taken at `at` lies at `at` or
/// below it.
pub proof fn lemma_copied_tree_is_below(node: NodeView, at: Path, path: Path)
    requires
        copied_tree(node, at).contains_key(path),
    ensures
        path.len() >= at.len(),
    decreases node, 0nat,
{
    if let NodeView::Dir(children) = node {
        if path != at {
            lemma_copied_children_are_below(children, children.len(), at, path);
        }
    }
}

/// What a copy brings over of the entries of the directory at `at` lies
/// below `at`.
pub proof fn lemma_copied_children_are_below(
    children: Seq<ChildView>,
    n: nat,
    at: Path,
    path: Path,
)
    requires
        n <= children.len(),
        copied_children(children, n, at).contains_key(path),
    ensures
        path.len() > at.len(),
    decreases children, n,
{
    if n > 0 {
        let below = at.push(children[n - 1].name);
        if copied_tree(children[n - 1].node, below).contains_key(path) {
            lemma_copied_tree_is_below(children[n - 1].node, below, path);
        } else {
            lemma_copied_children_are_below(children, (n - 1) as nat, at, path);
        }
    }
}

/// The plan for a snapshot can be performed wherever there is a place for
/// the snapshot's root.
pub proof fn lemma_plan_is_performable(node: NodeView, at: Path, tree: Tree)
    requires
        has_place(tree, at),
    ensures
        performable(plan(node, at), tree),
    decreases node, 0nat,
{
    match node {
        NodeView::File => {
            lemma_performable_one(CopyOpView::CopyFile { path: at }, tree);
        },
        NodeView::Link(target) => {
            lemma_performable_one(CopyOpView::Link { path: at, target }, tree);
        },
        NodeView::Other => {},
        NodeView::Dir(children) => {
            let create = seq![CopyOpView::CreateDir { path: at }];
            lemma_performable_one(CopyOpView::CreateDir { path: at }, tree);
            lemma_realize_one(CopyOpView::CreateDir { path: at }, tree);
            lemma_children_are_performable(children, children.len(), at, tree.insert(at, Item::Dir));
            lemma_performable_concat(create, plan_children(children, children.len(), at), tree);
        },
    }
}

/// The plan for the first `n` entries of a directory can be performed
/// where the directory is there.
pub proof fn lemma_children_are_performable(
    children: Seq<ChildView>,
    n: nat,
    at: Path,
    tree: Tree,
)
    requires
        n <= children.len(),
        has_dir(tree, at),
    ensures
        performable(plan_children(children, n, at), tree),
    decreases children, n,
{
    if n > 0 {
        let earlier = plan_children(children, (n - 1) as nat, at);
        let child = children[n - 1];
        let below = at.push(child.name);
        lemma_children_are_performable(children, (n - 1) as nat, at, tree);
        lemma_children_realize(children, (n - 1) as nat, at, tree);
        let brought = copied_children(children, (n - 1) as nat, at);
        if brought.contains_key(at) {
            lemma_copied_children_are_below(children, (n - 1) as nat, at, at);
        }
        assert(below.drop_last() =~= at);
        assert(has_dir(realize(earlier, tree), at));
        lemma_plan_is_performable(child.node, below, realize(earlier, tree));
        lemma_performable_concat(earlier, plan(child.node, below), tree);
    }
}

/// Of a tree whose entries are all directories, files or links, a copy
/// brings over everything.
pub proof fn lemma_plain_is_copied_whole(node: NodeView, at: Path)
    requires
        is_plain(node),
    ensures
        copied_tree(node, at) == tree_of(node, at),
    decreases node, 0nat,
{
    if let NodeView::Dir(children) = node {
        lemma_plain_children_are_copied_whole(children, children.len(), at);
    }
}

/// Of entries that are all directories, files or links, with all below
/// them, a copy brings over everything.
pub proof fn lemma_plain_children_are_copied_whole(children: Seq<ChildView>, n: nat, at: Path)
    requires
        n <= children.len(),
        are_plain(children, n),
    ensures
        copied_children(children, n, at) == tree_of_children(children, n, at),
    decreases children, n,
{
    if n > 0 {
        lemma_plain_children_are_copied_whole(children, (n - 1) as nat, at);
        lemma_plain_is_copied_whole(children[n - 1].node, at.push(children[n - 1].name));
    }
}

/// Copying a tree of directories, files and links to an empty destination
/// can be done in the plan's order, and gives the same tree: the same items
/// at the same paths, the links with the targets they had.
pub proof fn lemma_copy_preserves_tree(node: NodeView)
    requires
        is_plain(node),
    ensures
        performable(plan(node, Seq::empty()), Map::empty()),
        realize(plan(node, Seq::empty()), Map::empty()) == tree_of(node, Seq::empty()),
{
    lemma_plan_is_performable(node, Seq::empty(), Map::empty());
    lemma_plan_realizes(node, Seq::empty(), Map::empty());
    lemma_plain_is_copied_whole(node, Seq::empty());
    assert(Map::<Path, Item>::empty().union_prefer_right(copied_tree(node, Seq::empty()))
        =~= copied_tree(node, Seq::empty()));
}

} // verus!
