//! A content tree held in memory.
//!
//! The tree lists what a walk of the content root found, in the order of the
//! walk: each path relative to the root, and what reading it gave. Parsing
//! reads nothing else.

use vstd::prelude::*;
use crate::error::{Failure, IoKind};

verus! {

/// What a path of the content tree holds.
#[derive(Debug)]
pub enum Node {
    /// A directory.
    Dir,
    /// A regular file and its text.
    File(String),
    /// A path that could not be read.
    Failed(IoKind),
}

/// One path of the content tree and what it holds.
#[derive(Debug)]
pub struct Entry {
    pub path: String,
    pub node: Node,
}

/// The content tree: its entries in the order in which the walk met them.
#[derive(Debug)]
pub struct Tree {
    pub entries: Vec<Entry>,
}

/// The model of a [`Node`].
pub enum NodeView {
    Dir,
    File(Seq<char>),
    Failed(IoKind),
}

/// The model of an [`Entry`].
pub struct EntryView {
    pub path: Seq<char>,
    pub node: NodeView,
}

impl DeepView for Node {
    type V = NodeView;

    open spec fn deep_view(&self) -> NodeView {
        match self {
            Node::Dir => NodeView::Dir,
            Node::File(text) => NodeView::File(text@),
            Node::Failed(kind) => NodeView::Failed(*kind),
        }
    }
}

impl DeepView for Entry {
    type V = EntryView;

    open spec fn deep_view(&self) -> EntryView {
        EntryView { path: self.path@, node: self.node.deep_view() }
    }
}

impl DeepView for Tree {
    type V = Seq<EntryView>;

    open spec fn deep_view(&self) -> Seq<EntryView> {
        self.entries.deep_view()
    }
}

/// What the first entry with the given path holds.
pub open spec fn found(tree: Seq<EntryView>, path: Seq<char>) -> Option<NodeView>
    decreases tree.len(),
{
    if tree.len() == 0 {
        None
    } else if tree[0].path == path {
        Some(tree[0].node)
    } else {
        found(tree.skip(1), path)
    }
}

/// What reading the text of a node gives.
pub open spec fn text_of(node: Option<NodeView>) -> Result<Seq<char>, Failure> {
    match node {
        None => Err(Failure::Io(IoKind::NotFound)),
        Some(NodeView::Dir) => Err(Failure::Io(IoKind::IsADirectory)),
        Some(NodeView::Failed(kind)) => Err(Failure::Io(kind)),
        Some(NodeView::File(text)) => Ok(text),
    }
}

/// What reading the file at `path` gives: its text, or the I/O failure that a
/// missing, unreadable or non-file path stands for.
pub open spec fn read_text(tree: Seq<EntryView>, path: Seq<char>) -> Result<Seq<char>, Failure> {
    text_of(found(tree, path))
}

/// What is found at a path is what the first entry with that path holds,
/// and nothing is found where no entry has the path.
pub proof fn lemma_found_is_first(tree: Seq<EntryView>, path: Seq<char>)
    ensures
        match found(tree, path) {
            Some(node) => exists|i: int|
                {
                    &&& 0 <= i < tree.len()
                    &&& #[trigger] tree[i].path == path
                    &&& tree[i].node == node
                    &&& forall|j: int| 0 <= j < i ==> #[trigger] tree[j].path != path
                },
            None => forall|i: int| 0 <= i < tree.len() ==> #[trigger] tree[i].path != path,
        },
    decreases tree.len(),
{
    if tree.len() > 0 {
        if tree[0].path == path {
            assert(tree[0].path == path && tree[0].node == found(tree, path)->Some_0);
        } else {
            let tail = tree.skip(1);
            lemma_found_is_first(tail, path);
            match found(tail, path) {
                Some(node) => {
                    let i = choose|i: int|
                        {
                            &&& 0 <= i < tail.len()
                            &&& #[trigger] tail[i].path == path
                            &&& tail[i].node == node
                            &&& forall|j: int| 0 <= j < i ==> #[trigger] tail[j].path != path
                        };
                    assert(tree[i + 1].path == path && tree[i + 1].node == node);
                    assert forall|j: int| 0 <= j < i + 1 implies #[trigger] tree[j].path
                        != path by {
                        if j > 0 {
                            assert(tail[j - 1].path != path);
                        }
                    }
                },
                None => {
                    assert forall|i: int| 0 <= i < tree.len() implies #[trigger] tree[i].path
                        != path by {
                        if i > 0 {
                            assert(tail[i - 1].path != path);
                        }
                    }
                },
            }
        }
    }
}

impl Tree {
    /// A tree without entries.
    pub fn new() -> (tree: Tree)
        ensures
            tree.deep_view() == Seq::<EntryView>::empty(),
    {
        let tree = Tree { entries: Vec::new() };
        assert(tree.deep_view() =~= Seq::<EntryView>::empty());
        tree
    }

    /// Adds an entry after those that the tree holds.
    pub fn push(&mut self, path: String, node: Node)
        ensures
            final(self).deep_view() == old(self).deep_view().push(
                EntryView { path: path@, node: node.deep_view() },
            ),
    {
        self.entries.push(Entry { path, node });
        assert(self.deep_view() =~= old(self).deep_view().push(
            EntryView { path: path@, node: node.deep_view() },
        ));
    }

    /// The first entry with the given path, if there is one.
    pub fn find(&self, path: &str) -> (node: Option<&Node>)
        ensures
            node.deep_view() == found(self.deep_view(), path@),
    {
        let target = path.to_owned();
        let mut i: usize = 0;
        assert(self.deep_view().skip(0) =~= self.deep_view());
        while i < self.entries.len()
            invariant
                i <= self.entries.len(),
                target@ == path@,
                found(self.deep_view(), path@) == found(self.deep_view().skip(i as int), path@),
            decreases self.entries.len() - i,
        {
            let ghost rest = self.deep_view().skip(i as int);
            assert(rest[0] == self.entries[i as int].deep_view());
            if self.entries[i].path == target {
                return Some(&self.entries[i].node);
            }
            assert(rest.skip(1) =~= self.deep_view().skip(i + 1));
            i += 1;
        }
        None
    }

    /// Reads the file at `path`.
    pub fn read(&self, path: &str) -> (text: Result<&str, Failure>)
        ensures
            match text {
                Ok(t) => read_text(self.deep_view(), path@) == Ok::<Seq<char>, Failure>(t@),
                Err(e) => read_text(self.deep_view(), path@) == Err::<Seq<char>, Failure>(e),
            },
    {
        match self.find(path) {
            None => Err(Failure::Io(IoKind::NotFound)),
            Some(Node::Dir) => Err(Failure::Io(IoKind::IsADirectory)),
            Some(Node::Failed(kind)) => Err(Failure::Io(*kind)),
            Some(Node::File(text)) => Ok(text.as_str()),
        }
    }
}

} // verus!
