//! A node of a story tree: one paragraph, who wrote it, and what follows.
//!
//! A paragraph's text is kept whole, together with the byte offsets at
//! which its pieces end; a piece is what the generator produced in one
//! step. A path is a list of child indices that leads from a node down the
//! tree.

use vstd::prelude::*;
use vstd::string::*;
use vstd::utf8::*;
use crate::numbers::whitespace;
use crate::text::{join_all, joined, texts};

verus! {

/// A piece of a paragraph's text. It starts where the piece before it
/// ends, the first one at the start of the text.
#[derive(Debug, Clone, Copy, PartialEq, Eq, Default)]
pub struct Piece {
    /// The byte offset in the text at which the piece ends.
    pub end: usize,
}

/// Metadata of a node that carries none.
#[derive(Debug, Clone, Copy, PartialEq, Eq, Default)]
pub struct Meta {}

/// One paragraph of a story and the paragraphs that continue it. `T` is
/// whatever the owner keeps with each node.
#[derive(Debug, PartialEq, Eq)]
pub struct Node<T> {
    /// Who wrote the paragraph.
    pub author_id: u8,
    /// The text of the paragraph.
    pub text: String,
    /// Where the pieces of the text end.
    pub pieces: Vec<Piece>,
    /// The continuations of the paragraph.
    pub children: Vec<Node<T>>,
    /// The owner's data.
    pub meta: T,
}

/// What the user asked for at a node. Every action selects the node, or
/// one of its children.
#[derive(Debug, Clone, Copy, PartialEq, Eq)]
pub struct Action {
    /// The node is to be deleted.
    pub delete: bool,
    /// The generation is to continue within the node.
    pub continue_: bool,
    /// A new child, at this index, is to be generated.
    pub generate: Option<usize>,
    /// The node or the tree was modified.
    pub modified: bool,
}

/// An action and the path of the node it is about.
#[derive(Debug, Clone, PartialEq, Eq)]
pub struct PathAction {
    pub path: Vec<usize>,
    pub action: Action,
}

impl Default for Action {
    /// The action that asks for nothing but selection.
    fn default() -> (action: Self)
        ensures
            action == (Action { delete: false, continue_: false, generate: None, modified: false }),
    {
        Action { delete: false, continue_: false, generate: None, modified: false }
    }
}

impl Default for PathAction {
    /// No action at the root.
    fn default() -> (action: Self)
        ensures
            action.path@.len() == 0,
            action.action == (Action {
                delete: false,
                continue_: false,
                generate: None,
                modified: false,
            }),
    {
        PathAction { path: Vec::new(), action: Action::default() }
    }
}

impl Action {
    /// Whether the action asks for text to be generated.
    pub fn action_needed(&self) -> (needed: bool)
        ensures
            needed == (self.continue_ || self.generate is Some),
    {
        self.continue_ || self.generate.is_some()
    }
}

/// The nodes that `refs` refer to.
pub open spec fn targets<T>(refs: Seq<&Node<T>>) -> Seq<Node<T>> {
    Seq::new(refs.len(), |i: int| *refs[i])
}

/// The number of bytes that the texts of `parts` take together.
pub open spec fn total_bytes(parts: Seq<Seq<char>>) -> nat
    decreases parts.len(),
{
    if parts.len() == 0 {
        0
    } else {
        total_bytes(parts.drop_last()) + encode_utf8(parts.last()).len()
    }
}

/// The pieces that a text which is `start` bytes long gains when `parts`
/// are added to it one by one.
pub open spec fn pieces_of(start: nat, parts: Seq<Seq<char>>) -> Seq<Piece> {
    Seq::new(
        parts.len(),
        |i: int| Piece { end: (start + total_bytes(parts.subrange(0, i + 1))) as usize },
    )
}

/// Whether the bytes from `start` up to `end` are a string of their own:
/// a range within `bytes` that cuts no character.
pub open spec fn sliceable(bytes: Seq<u8>, start: int, end: int) -> bool {
    &&& 0 <= start <= end <= bytes.len()
    &&& is_char_boundary(bytes, start)
    &&& is_char_boundary(bytes, end)
}

/// The byte offset at which piece `k` starts.
pub open spec fn piece_start(pieces: Seq<Piece>, k: int) -> int {
    if k <= 0 {
        0
    } else {
        pieces[k - 1].end as int
    }
}

/// The index of the first piece from `from` on that is no string of its
/// own, or the number of pieces if there is none.
pub open spec fn first_unreadable(bytes: Seq<u8>, pieces: Seq<Piece>, from: int) -> int
    decreases pieces.len() - from,
{
    if from < 0 || from >= pieces.len() || !sliceable(
        bytes,
        piece_start(pieces, from),
        pieces[from].end as int,
    ) {
        from
    } else {
        first_unreadable(bytes, pieces, from + 1)
    }
}

/// `text` without the whitespace at its end.
pub open spec fn trimmed(text: Seq<char>) -> Seq<char>
    decreases text.len(),
{
    if text.len() == 0 || !whitespace(text.last()) {
        text
    } else {
        trimmed(text.drop_last())
    }
}

/// `pieces` without the pieces at its end that end beyond `len`.
pub open spec fn fitting(pieces: Seq<Piece>, len: usize) -> Seq<Piece>
    decreases pieces.len(),
{
    if pieces.len() == 0 || pieces.last().end <= len {
        pieces
    } else {
        fitting(pieces.drop_last(), len)
    }
}

/// `pieces` with a last piece that ends at `len`, added if it is not
/// there.
pub open spec fn closed_at(pieces: Seq<Piece>, len: usize) -> Seq<Piece> {
    if pieces.len() > 0 && pieces.last().end == len {
        pieces
    } else {
        pieces.push(Piece { end: len })
    }
}

/// `str::get` with a range of byte offsets. As documented, the result is
/// `None` exactly where indexing with the range would panic: where the
/// range is not within the text or an end of it cuts a character.
/// Otherwise it is the part of the text between the two offsets.
#[verifier::external_body]
fn slice<'a>(text: &'a str, start: usize, end: usize) -> (part: Option<&'a str>)
    ensures
        part is Some <==> sliceable(text.spec_bytes(), start as int, end as int),
        part matches Some(found) ==> found.spec_bytes() == text.spec_bytes().subrange(
            start as int,
            end as int,
        ),
{
    text.get(start..end)
}

/// `str::trim_end`: the text without its trailing whitespace. As
/// documented, the result is the start of the text, it does not end in
/// whitespace, and all that was left out is whitespace.
#[verifier::external_body]
fn trim_end<'a>(text: &'a str) -> (kept: &'a str)
    ensures
        kept@.len() <= text@.len(),
        kept@ == text@.subrange(0, kept@.len() as int),
        kept@.len() > 0 ==> !whitespace(kept@.last()),
        forall|i: int| kept@.len() <= i < text@.len() ==> whitespace(#[trigger] text@[i]),
{
    text.trim_end()
}

/// What is left of `text` once the whitespace at its end is removed is
/// the one start of `text` that does not end in whitespace and is
/// followed by whitespace only.
pub proof fn lemma_trimmed_is_unique(text: Seq<char>, kept: Seq<char>)
    requires
        kept.len() <= text.len(),
        kept == text.subrange(0, kept.len() as int),
        kept.len() > 0 ==> !whitespace(kept.last()),
        forall|i: int| kept.len() <= i < text.len() ==> whitespace(#[trigger] text[i]),
    ensures
        kept == trimmed(text),
    decreases text.len(),
{
    if text.len() == kept.len() {
        assert(kept =~= text);
    } else {
        assert(whitespace(text[text.len() - 1]));
        let shorter = text.drop_last();
        assert(kept =~= shorter.subrange(0, kept.len() as int));
        assert forall|i: int| kept.len() <= i < shorter.len() implies whitespace(
            #[trigger] shorter[i],
        ) by {
            assert(shorter[i] == text[i]);
        }
        lemma_trimmed_is_unique(shorter, kept);
    }
}

impl<T> Node<T> {
    /// The bytes of the text.
    pub open spec fn bytes(self) -> Seq<u8> {
        encode_utf8(self.text@)
    }

    /// The number of pieces that can be read. Reading stops at the first
    /// piece that is no string of its own.
    pub open spec fn readable_pieces(self) -> nat {
        first_unreadable(self.bytes(), self.pieces@, 0) as nat
    }

    /// The pieces that can be read, as bytes.
    pub open spec fn piece_bytes(self) -> Seq<Seq<u8>> {
        Seq::new(
            self.readable_pieces(),
            |k: int| self.bytes().subrange(piece_start(self.pieces@, k), self.pieces@[k].end as int),
        )
    }

    /// The pieces that can be read, as texts.
    pub open spec fn piece_texts(self) -> Seq<Seq<char>> {
        Seq::new(self.readable_pieces(), |k: int| decode_utf8(self.piece_bytes()[k]))
    }

    /// The pieces of `nodes`, node by node, each node's pieces behind a
    /// `separator`.
    pub open spec fn separated(nodes: Seq<Node<T>>, separator: Seq<char>) -> Seq<Seq<char>>
        decreases nodes.len(),
    {
        if nodes.len() == 0 {
            Seq::empty()
        } else {
            Self::separated(nodes.drop_last(), separator) + seq![separator]
                + nodes.last().piece_texts()
        }
    }

    /// The pieces of the nodes on the way down `path`, with one
    /// `separator` between each node's pieces and the next's.
    pub open spec fn path_text(self, path: Seq<usize>, separator: Seq<char>) -> Seq<Seq<char>> {
        Self::separated(self.path_nodes(path), separator).drop_first()
    }

    /// The number of nodes of the tree, this one included.
    pub open spec fn size(self) -> nat
        decreases self,
    {
        1 + Self::forest_size(self.children@)
    }

    /// The number of nodes of all the trees in `nodes`.
    pub open spec fn forest_size(nodes: Seq<Node<T>>) -> nat
        decreases nodes,
    {
        if nodes.len() == 0 {
            0
        } else {
            Self::forest_size(nodes.drop_last()) + nodes.last().size()
        }
    }

    /// Whether `path` leads to a node: each index names a child of the
    /// node reached so far.
    pub open spec fn valid_path(self, path: Seq<usize>) -> bool
        decreases path.len(),
    {
        path.len() == 0 || (path[0] < self.children@.len() && self.children@[path[0] as int].valid_path(
            path.drop_first(),
        ))
    }

    /// The node that `path` leads to.
    pub open spec fn node_at(self, path: Seq<usize>) -> Node<T>
        recommends
            self.valid_path(path),
        decreases path.len(),
    {
        if path.len() == 0 || path[0] >= self.children@.len() {
            self
        } else {
            self.children@[path[0] as int].node_at(path.drop_first())
        }
    }

    /// The nodes met on the way down `path`, from this node on. The way
    /// ends at the first index that names no child.
    pub open spec fn path_nodes(self, path: Seq<usize>) -> Seq<Node<T>>
        decreases path.len(),
    {
        if path.len() == 0 || path[0] >= self.children@.len() {
            seq![self]
        } else {
            seq![self] + self.children@[path[0] as int].path_nodes(path.drop_first())
        }
    }

    /// The nodes of the tree in depth-first order: a node, and after it
    /// the trees of its children, one after the other.
    pub open spec fn depth_first(self) -> Seq<Node<T>>
        decreases self,
    {
        seq![self] + Self::forest_depth_first(self.children@)
    }

    /// The nodes of the trees in `nodes` in depth-first order, tree by
    /// tree.
    pub open spec fn forest_depth_first(nodes: Seq<Node<T>>) -> Seq<Node<T>>
        decreases nodes,
    {
        if nodes.len() == 0 {
            Seq::empty()
        } else {
            Self::forest_depth_first(nodes.drop_last()) + nodes.last().depth_first()
        }
    }

    /// The number of levels of the tree.
    pub open spec fn height(self) -> nat
        decreases self,
    {
        1 + Self::forest_height(self.children@)
    }

    /// The number of levels of the tallest tree in `nodes`.
    pub open spec fn forest_height(nodes: Seq<Node<T>>) -> nat
        decreases nodes,
    {
        if nodes.len() == 0 {
            0
        } else if Self::forest_height(nodes.drop_last()) >= nodes.last().height() {
            Self::forest_height(nodes.drop_last())
        } else {
            nodes.last().height()
        }
    }

    /// The children of `nodes`, in the order of their parents.
    pub open spec fn offspring(nodes: Seq<Node<T>>) -> Seq<Node<T>>
        decreases nodes.len(),
    {
        if nodes.len() == 0 {
            Seq::empty()
        } else {
            Self::offspring(nodes.drop_last()) + nodes.last().children@
        }
    }

    /// The first `depth` levels below and including `nodes`: `nodes`, their
    /// children, the children of those, and so on.
    pub open spec fn levels(nodes: Seq<Node<T>>, depth: nat) -> Seq<Node<T>>
        decreases depth,
    {
        if depth == 0 {
            Seq::empty()
        } else {
            nodes + Self::levels(Self::offspring(nodes), (depth - 1) as nat)
        }
    }

    /// The nodes of the tree in breadth-first order: level by level, and
    /// within a level in the order of the parents.
    pub open spec fn breadth_first(self) -> Seq<Node<T>> {
        Self::levels(seq![self], self.height())
    }

    /// A forest made of two is as tall as the taller of the two.
    pub proof fn lemma_forest_height_concat(first: Seq<Node<T>>, second: Seq<Node<T>>)
        ensures
            Self::forest_height(first + second) == if Self::forest_height(first)
                >= Self::forest_height(second) {
                Self::forest_height(first)
            } else {
                Self::forest_height(second)
            },
        decreases second.len(),
    {
        if second.len() == 0 {
            assert(first + second =~= first);
        } else {
            Self::lemma_forest_height_concat(first, second.drop_last());
            assert((first + second).drop_last() =~= first + second.drop_last());
            assert((first + second).last() == second.last());
        }
    }

    /// The children of a forest stand one level less tall than the forest.
    pub proof fn lemma_offspring_height(nodes: Seq<Node<T>>)
        requires
            nodes.len() > 0,
        ensures
            Self::forest_height(nodes) == Self::forest_height(Self::offspring(nodes)) + 1,
        decreases nodes.len(),
    {
        let before = nodes.drop_last();
        let last = nodes.last();
        Self::lemma_forest_height_concat(Self::offspring(before), last.children@);
        assert(Self::offspring(nodes) == Self::offspring(before) + last.children@);
        assert(last.height() == 1 + Self::forest_height(last.children@));
        if before.len() > 0 {
            Self::lemma_offspring_height(before);
        } else {
            assert(Self::forest_height(before) == 0);
            assert(Self::offspring(before) =~= Seq::<Node<T>>::empty());
            assert(Self::forest_height(Self::offspring(before)) == 0);
        }
    }

    /// Whether `other` is this tree with the node that `path` leads to
    /// replaced by `replacement`, and nothing else changed.
    pub open spec fn rewritten(self, other: Self, path: Seq<usize>, replacement: Self) -> bool
        decreases path.len(),
    {
        if path.len() == 0 {
            other == replacement
        } else {
            &&& path[0] < self.children@.len()
            &&& other.author_id == self.author_id
            &&& other.text == self.text
            &&& other.pieces == self.pieces
            &&& other.meta == self.meta
            &&& other.children@.len() == self.children@.len()
            &&& forall|j: int|
                0 <= j < self.children@.len() && j != path[0] ==> #[trigger] other.children@[j]
                    == self.children@[j]
            &&& self.children@[path[0] as int].rewritten(
                other.children@[path[0] as int],
                path.drop_first(),
                replacement,
            )
        }
    }

    /// A rewritten tree has the replacement where the path leads, and
    /// the path leads somewhere in both trees.
    pub proof fn lemma_rewritten_reaches(self, other: Self, path: Seq<usize>, replacement: Self)
        requires
            self.rewritten(other, path, replacement),
        ensures
            self.valid_path(path),
            other.valid_path(path),
            other.node_at(path) == replacement,
        decreases path.len(),
    {
        if path.len() > 0 {
            self.children@[path[0] as int].lemma_rewritten_reaches(
                other.children@[path[0] as int],
                path.drop_first(),
                replacement,
            );
        }
    }

    /// A path that leads to a node can be taken one step further to each
    /// of that node's children.
    pub proof fn lemma_path_extends(self, path: Seq<usize>, index: usize)
        requires
            self.valid_path(path),
            index < self.node_at(path).children@.len(),
        ensures
            self.valid_path(path.push(index)),
            self.node_at(path.push(index)) == self.node_at(path).children@[index as int],
        decreases path.len(),
    {
        let longer = path.push(index);
        if path.len() == 0 {
            assert(longer[0] == index);
            assert(longer.drop_first() =~= Seq::<usize>::empty());
            assert(self.children@[index as int].valid_path(longer.drop_first()));
            assert(self.children@[index as int].node_at(longer.drop_first())
                == self.children@[index as int]);
        } else {
            assert(longer[0] == path[0]);
            assert(longer.drop_first() =~= path.drop_first().push(index));
            self.children@[path[0] as int].lemma_path_extends(path.drop_first(), index);
        }
    }

    /// A path that leads to a node leads, without its last step, to that
    /// node's parent.
    pub proof fn lemma_path_parent(self, path: Seq<usize>)
        requires
            self.valid_path(path),
            path.len() > 0,
        ensures
            self.valid_path(path.drop_last()),
            path.last() < self.node_at(path.drop_last()).children@.len(),
            self.node_at(path) == self.node_at(path.drop_last()).children@[path.last() as int],
        decreases path.len(),
    {
        if path.len() == 1 {
            assert(path.drop_last() =~= Seq::<usize>::empty());
            assert(path.drop_first() =~= Seq::<usize>::empty());
            assert(path.last() == path[0]);
            assert(self.children@[path[0] as int].node_at(path.drop_first())
                == self.children@[path[0] as int]);
        } else {
            let shorter = path.drop_last();
            assert(shorter[0] == path[0]);
            assert(shorter.drop_first() =~= path.drop_first().drop_last());
            assert(path.drop_first().last() == path.last());
            self.children@[path[0] as int].lemma_path_parent(path.drop_first());
        }
    }

    /// The way down a path that leads to a node ends at that node.
    pub proof fn lemma_path_nodes_end(self, path: Seq<usize>)
        ensures
            self.path_nodes(path).len() > 0,
            self.valid_path(path) ==> self.path_nodes(path).last() == self.node_at(path),
        decreases path.len(),
    {
        if path.len() > 0 && path[0] < self.children@.len() {
            self.children@[path[0] as int].lemma_path_nodes_end(path.drop_first());
        }
    }

    /// Whether `other` is this tree with every node's author replaced by
    /// `author_id` and nothing else changed.
    pub open spec fn relabelled(self, other: Self, author_id: u8) -> bool
        decreases self,
    {
        &&& other.author_id == author_id
        &&& other.text == self.text
        &&& other.pieces == self.pieces
        &&& other.meta == self.meta
        &&& other.children@.len() == self.children@.len()
        &&& forall|i: int|
            0 <= i < self.children@.len() ==> (#[trigger] self.children@[i]).relabelled(
                other.children@[i],
                author_id,
            )
    }

    /// A tree is at least as large as each of the trees of a forest it
    /// belongs to.
    pub proof fn lemma_forest_size_bounds(nodes: Seq<Node<T>>, i: int)
        requires
            0 <= i < nodes.len(),
        ensures
            nodes[i].size() <= Self::forest_size(nodes),
            Self::forest_size(nodes.subrange(0, i)) + nodes[i].size() == Self::forest_size(
                nodes.subrange(0, i + 1),
            ),
            Self::forest_size(nodes.subrange(0, i + 1)) <= Self::forest_size(nodes),
        decreases nodes.len(),
    {
        assert(nodes.subrange(0, i + 1).drop_last() =~= nodes.subrange(0, i));
        assert(nodes.subrange(0, i + 1).last() == nodes[i]);
        if i == nodes.len() - 1 {
            assert(nodes.subrange(0, i + 1) =~= nodes);
        } else {
            Self::lemma_forest_size_bounds(nodes.drop_last(), i);
            assert(nodes.drop_last().subrange(0, i + 1) =~= nodes.subrange(0, i + 1));
            assert(nodes.drop_last()[i] == nodes[i]);
        }
    }

    /// A node with no text and no children, written by `author_id`.
    pub fn with_author(author_id: u8) -> (node: Self) where T: Default
        ensures
            node.author_id == author_id,
            node.text@.len() == 0,
            node.pieces@.len() == 0,
            node.children@.len() == 0,
            call_ensures(T::default, (), node.meta),
    {
        Node {
            author_id,
            text: String::new(),
            pieces: Vec::new(),
            children: Vec::new(),
            meta: T::default(),
        }
    }

    /// Makes `author_id` the author of this node and of every node below
    /// it.
    pub fn set_author(&mut self, author_id: u8)
        ensures
            old(self).relabelled(*final(self), author_id),
        decreases *old(self),
    {
        self.author_id = author_id;
        let n: usize = self.children.len();
        let mut i: usize = 0;
        while i < n
            invariant
                i <= n,
                n == self.children@.len(),
                n == old(self).children@.len(),
                self.author_id == author_id,
                self.text == old(self).text,
                self.pieces == old(self).pieces,
                self.meta == old(self).meta,
                forall|j: int|
                    0 <= j < i ==> (#[trigger] old(self).children@[j]).relabelled(
                        self.children@[j],
                        author_id,
                    ),
                forall|j: int| i <= j < n ==> self.children@[j] == old(self).children@[j],
            decreases n - i,
        {
            self.children[i].set_author(author_id);
            i += 1;
        }
    }

    /// Whether the node has no children.
    pub fn is_leaf(&self) -> (leaf: bool)
        ensures
            leaf == (self.children@.len() == 0),
    {
        self.children.is_empty()
    }

    /// The number of nodes of the tree, this one included.
    pub fn count(&self) -> (count: usize)
        requires
            self.size() <= usize::MAX,
        ensures
            count == self.size(),
        decreases self,
    {
        let mut count: usize = 1;
        let n: usize = self.children.len();
        let mut i: usize = 0;
        while i < n
            invariant
                i <= n,
                n == self.children@.len(),
                count == 1 + Self::forest_size(self.children@.subrange(0, i as int)),
                self.size() <= usize::MAX,
            decreases n - i,
        {
            proof {
                Self::lemma_forest_size_bounds(self.children@, i as int);
            }
            let below = self.children[i].count();
            count = count + below;
            i += 1;
        }
        proof {
            assert(self.children@.subrange(0, n as int) =~= self.children@);
        }
        count
    }

    /// Adds `child` as the last child and says at which index it stands.
    pub fn add_child(&mut self, child: Node<T>) -> (index: usize)
        ensures
            index == old(self).children@.len(),
            final(self).children@ == old(self).children@.push(child),
            final(self).author_id == old(self).author_id,
            final(self).text == old(self).text,
            final(self).pieces == old(self).pieces,
            final(self).meta == old(self).meta,
    {
        self.children.push(child);
        self.children.len() - 1
    }

    /// Whether `path` leads to a node.
    pub fn is_valid_path(&self, path: &[usize]) -> (valid: bool)
        ensures
            valid == self.valid_path(path@),
    {
        let mut node = self;
        let mut i: usize = 0;
        proof {
            assert(path@.subrange(0, path@.len() as int) =~= path@);
        }
        while i < path.len()
            invariant
                i <= path.len(),
                self.valid_path(path@) == node.valid_path(path@.subrange(i as int, path@.len() as int)),
            decreases path.len() - i,
        {
            let ghost rest = path@.subrange(i as int, path@.len() as int);
            let index = path[i];
            assert(rest[0] == index);
            assert(rest.drop_first() =~= path@.subrange(i + 1, path@.len() as int));
            if index >= node.children.len() {
                return false;
            }
            node = &node.children[index];
            i += 1;
        }
        true
    }

    /// The nodes met on the way down `path`, this node first. Where an
    /// index names no child the way ends at the last node reached.
    pub fn iter_path_nodes<'a>(&'a self, path: &[usize]) -> (nodes: Vec<&'a Node<T>>)
        ensures
            targets(nodes@) == self.path_nodes(path@),
    {
        let mut nodes: Vec<&'a Node<T>> = Vec::new();
        nodes.push(self);
        let mut node = self;
        let mut i: usize = 0;
        let mut going = true;
        proof {
            assert(path@.subrange(0, path@.len() as int) =~= path@);
            assert(targets(nodes@).drop_last() + self.path_nodes(path@) =~= self.path_nodes(path@));
        }
        while going && i < path.len()
            invariant
                i <= path.len(),
                nodes@.len() > 0,
                targets(nodes@).last() == *node,
                targets(nodes@).drop_last() + node.path_nodes(
                    path@.subrange(i as int, path@.len() as int),
                ) == self.path_nodes(path@),
                !going ==> node.path_nodes(path@.subrange(i as int, path@.len() as int)) == seq![
                    *node,
                ],
            decreases path.len() - i + (if going { 1int } else { 0int }),
        {
            let ghost rest = path@.subrange(i as int, path@.len() as int);
            let ghost before = targets(nodes@);
            let index = path[i];
            assert(rest[0] == index);
            assert(rest.drop_first() =~= path@.subrange(i + 1, path@.len() as int));
            if index >= node.children.len() {
                going = false;
            } else {
                let child = &node.children[index];
                nodes.push(child);
                proof {
                    let below = child.path_nodes(rest.drop_first());
                    assert(node.path_nodes(rest) =~= seq![*node] + below);
                    assert(targets(nodes@).drop_last() =~= before);
                    assert(before =~= before.drop_last() + seq![*node]);
                    assert(before + below =~= before.drop_last() + (seq![*node] + below));
                }
                node = child;
                i += 1;
            }
        }
        proof {
            let rest = path@.subrange(i as int, path@.len() as int);
            assert(node.path_nodes(rest) =~= seq![*node]);
            assert(targets(nodes@) =~= targets(nodes@).drop_last() + seq![*node]);
        }
        nodes
    }
    /// Adds the nodes of the tree to `found`, in depth-first order.
    fn collect_depth_first<'a>(&'a self, found: &mut Vec<&'a Node<T>>)
        ensures
            targets(final(found)@) == targets(old(found)@) + self.depth_first(),
        decreases self,
    {
        let ghost before = targets(found@);
        found.push(self);
        proof {
            assert(targets(found@) =~= before + seq![*self] + Self::forest_depth_first(
                self.children@.subrange(0, 0),
            ));
        }
        let mut i: usize = 0;
        while i < self.children.len()
            invariant
                i <= self.children@.len(),
                targets(found@) == before + seq![*self] + Self::forest_depth_first(
                    self.children@.subrange(0, i as int),
                ),
            decreases self.children@.len() - i,
        {
            proof {
                let upto = self.children@.subrange(0, i + 1);
                assert(upto.drop_last() =~= self.children@.subrange(0, i as int));
                assert(upto.last() == self.children@[i as int]);
            }
            let ghost so_far = targets(found@);
            self.children[i].collect_depth_first(found);
            proof {
                assert(targets(found@) =~= before + seq![*self] + Self::forest_depth_first(
                    self.children@.subrange(0, i + 1),
                ));
            }
            i += 1;
        }
        proof {
            assert(self.children@.subrange(0, self.children@.len() as int) =~= self.children@);
            assert(targets(found@) =~= before + self.depth_first());
        }
    }

    /// The nodes of the tree in depth-first order: each node before its
    /// children, each child's tree before the next child.
    pub fn iter_depth_first<'a>(&'a self) -> (nodes: Vec<&'a Node<T>>)
        ensures
            targets(nodes@) == self.depth_first(),
    {
        let mut nodes: Vec<&'a Node<T>> = Vec::new();
        self.collect_depth_first(&mut nodes);
        proof {
            assert(targets(nodes@) =~= self.depth_first());
        }
        nodes
    }

    /// The nodes of the tree in breadth-first order: level by level, and
    /// within a level in the order of the parents.
    pub fn iter_breadth_first<'a>(&'a self) -> (nodes: Vec<&'a Node<T>>)
        ensures
            targets(nodes@) == self.breadth_first(),
    {
        let mut nodes: Vec<&'a Node<T>> = Vec::new();
        let mut level: Vec<&'a Node<T>> = Vec::new();
        level.push(self);
        proof {
            assert(targets(level@) =~= seq![*self]);
            assert(seq![*self].drop_last() =~= Seq::<Node<T>>::empty());
            assert(seq![*self].last() == *self);
            assert(Self::forest_height(seq![*self].drop_last()) == 0);
            assert(Self::forest_height(seq![*self]) == self.height());
            assert(targets(nodes@) + self.breadth_first() =~= self.breadth_first());
        }
        while level.len() > 0
            invariant
                targets(nodes@) + Self::levels(
                    targets(level@),
                    Self::forest_height(targets(level@)),
                ) == self.breadth_first(),
            decreases Self::forest_height(targets(level@)),
        {
            let ghost before = targets(nodes@);
            let ghost parents = targets(level@);
            proof {
                Self::lemma_offspring_height(parents);
            }
            let mut next: Vec<&'a Node<T>> = Vec::new();
            let mut i: usize = 0;
            proof {
                assert(targets(nodes@) =~= before + parents.subrange(0, 0));
                assert(targets(next@) =~= Self::offspring(parents.subrange(0, 0)));
            }
            while i < level.len()
                invariant
                    i <= level@.len(),
                    parents == targets(level@),
                    targets(nodes@) == before + parents.subrange(0, i as int),
                    targets(next@) == Self::offspring(parents.subrange(0, i as int)),
                decreases level@.len() - i,
            {
                let node = level[i];
                let ghost listed = targets(nodes@);
                nodes.push(node);
                let ghost queued = targets(next@);
                let mut c: usize = 0;
                proof {
                    assert(targets(nodes@) =~= listed.push(*node));
                    assert(targets(next@) =~= queued + node.children@.subrange(0, 0));
                }
                while c < node.children.len()
                    invariant
                        c <= node.children@.len(),
                        targets(next@) == queued + node.children@.subrange(0, c as int),
                    decreases node.children@.len() - c,
                {
                    let ghost so_far = targets(next@);
                    next.push(&node.children[c]);
                    proof {
                        assert(targets(next@) =~= so_far.push(node.children@[c as int]));
                        assert(targets(next@) =~= queued + node.children@.subrange(0, c + 1));
                    }
                    c += 1;
                }
                proof {
                    let upto = parents.subrange(0, i + 1);
                    assert(upto.drop_last() =~= parents.subrange(0, i as int));
                    assert(upto.last() == *node);
                    assert(node.children@.subrange(0, node.children@.len() as int)
                        =~= node.children@);
                    assert(targets(nodes@) =~= before + upto);
                }
                i += 1;
            }
            proof {
                assert(parents.subrange(0, level@.len() as int) =~= parents);
                let depth = Self::forest_height(parents);
                assert(Self::levels(parents, depth) == parents + Self::levels(
                    Self::offspring(parents),
                    (depth - 1) as nat,
                ));
                assert((before + parents) + Self::levels(
                    Self::offspring(parents),
                    (depth - 1) as nat,
                ) =~= before + Self::levels(parents, depth));
            }
            level = next;
        }
        proof {
            assert(targets(level@) =~= Seq::<Node<T>>::empty());
            assert(targets(nodes@) + Seq::<Node<T>>::empty() =~= targets(nodes@));
        }
        nodes
    }

    /// The node that the part of `path` from `from` on leads to, for
    /// changing.
    fn descend_mut<'a>(&'a mut self, path: &[usize], from: usize) -> (node: &'a mut Node<T>)
        requires
            from <= path@.len(),
            old(self).valid_path(path@.subrange(from as int, path@.len() as int)),
        ensures
            *node == old(self).node_at(path@.subrange(from as int, path@.len() as int)),
            old(self).rewritten(
                *final(self),
                path@.subrange(from as int, path@.len() as int),
                *final(node),
            ),
        decreases path@.len() - from,
    {
        let ghost rest = path@.subrange(from as int, path@.len() as int);
        if from == path.len() {
            self
        } else {
            let index = path[from];
            proof {
                assert(rest[0] == index);
                assert(rest.drop_first() =~= path@.subrange(from + 1, path@.len() as int));
            }
            self.children[index].descend_mut(path, from + 1)
        }
    }

    /// The node that `path` leads to, for changing. Whatever is done to
    /// it, the rest of the tree stays as it is.
    pub fn node_at_mut<'a>(&'a mut self, path: &[usize]) -> (node: &'a mut Node<T>)
        requires
            old(self).valid_path(path@),
        ensures
            *node == old(self).node_at(path@),
            old(self).rewritten(*final(self), path@, *final(node)),
    {
        proof {
            assert(path@.subrange(0, path@.len() as int) =~= path@);
        }
        self.descend_mut(path, 0)
    }

    /// The pieces of the text, first to last. A piece whose offsets are
    /// not within the text, or cut a character, ends the list.
    pub fn iter_pieces<'a>(&'a self) -> (pieces: Vec<&'a str>)
        ensures
            texts(pieces@) == self.piece_texts(),
    {
        broadcast use encode_utf8_decode_utf8;

        let text = self.text.as_str();
        let mut pieces: Vec<&'a str> = Vec::new();
        let mut start: usize = 0;
        let mut k: usize = 0;
        let mut going = true;
        while going && k < self.pieces.len()
            invariant
                k <= self.pieces@.len(),
                text@ == self.text@,
                start == piece_start(self.pieces@, k as int),
                pieces@.len() == k,
                first_unreadable(self.bytes(), self.pieces@, 0) == first_unreadable(
                    self.bytes(),
                    self.pieces@,
                    k as int,
                ),
                forall|j: int|
                    0 <= j < k ==> (#[trigger] pieces@[j]).spec_bytes() == self.bytes().subrange(
                        piece_start(self.pieces@, j),
                        self.pieces@[j].end as int,
                    ),
                !going ==> first_unreadable(self.bytes(), self.pieces@, k as int) == k,
            decreases self.pieces@.len() - k + (if going { 1int } else { 0int }),
        {
            let end = self.pieces[k].end;
            match slice(text, start, end) {
                Some(part) => {
                    pieces.push(part);
                    start = end;
                    k += 1;
                },
                None => {
                    going = false;
                },
            }
        }
        proof {
            assert(self.readable_pieces() == k);
            assert forall|j: int| 0 <= j < k implies #[trigger] texts(pieces@)[j]
                == self.piece_texts()[j] by {
                assert(decode_utf8(encode_utf8(pieces@[j]@)) == pieces@[j]@);
            }
            assert(texts(pieces@) =~= self.piece_texts());
        }
        pieces
    }

    /// The text as its pieces spell it: the pieces that can be read, put
    /// together.
    pub fn to_text(&self) -> (text: String)
        ensures
            text@ == joined(self.piece_texts()),
    {
        let pieces = self.iter_pieces();
        join_all(&pieces)
    }

    /// Adds `strings` to the text, each as a piece of its own.
    pub fn extend_strings(&mut self, strings: &[&str])
        requires
            old(self).bytes().len() + total_bytes(texts(strings@)) <= usize::MAX,
        ensures
            final(self).text@ == old(self).text@ + joined(texts(strings@)),
            final(self).pieces@ == old(self).pieces@ + pieces_of(
                old(self).bytes().len(),
                texts(strings@),
            ),
            final(self).author_id == old(self).author_id,
            final(self).children == old(self).children,
            final(self).meta == old(self).meta,
    {
        let ghost parts = texts(strings@);
        let ghost first = old(self).bytes().len();
        let mut start: usize = self.text.as_str().len();
        let mut i: usize = 0;
        while i < strings.len()
            invariant
                i <= strings@.len(),
                parts == texts(strings@),
                first == old(self).bytes().len(),
                first + total_bytes(parts) <= usize::MAX,
                start == first + total_bytes(parts.subrange(0, i as int)),
                self.text@ == old(self).text@ + joined(parts.subrange(0, i as int)),
                self.pieces@ == old(self).pieces@ + pieces_of(first, parts).subrange(0, i as int),
                self.author_id == old(self).author_id,
                self.children == old(self).children,
                self.meta == old(self).meta,
            decreases strings@.len() - i,
        {
            let string = strings[i];
            proof {
                let upto = parts.subrange(0, i + 1);
                assert(upto.drop_last() =~= parts.subrange(0, i as int));
                assert(upto.last() == string@);
                lemma_total_bytes_grows(parts, i + 1);
            }
            let end = start + string.len();
            self.text.append(string);
            self.pieces.push(Piece { end });
            proof {
                assert(pieces_of(first, parts)[i as int] == Piece { end });
                assert(pieces_of(first, parts).subrange(0, i + 1) =~= pieces_of(
                    first,
                    parts,
                ).subrange(0, i as int).push(Piece { end }));
                assert(self.text@ =~= old(self).text@ + joined(parts.subrange(0, i + 1)));
            }
            start = end;
            i += 1;
        }
        proof {
            assert(parts.subrange(0, strings@.len() as int) =~= parts);
            assert(pieces_of(first, parts).subrange(0, strings@.len() as int) =~= pieces_of(
                first,
                parts,
            ));
        }
    }

    /// The pieces of the nodes on the way down `path`, this node's first,
    /// with `separator` between one node's pieces and the next's. Where an
    /// index names no child the way ends at the last node reached.
    pub fn iter_path_text<'a>(&'a self, path: &[usize], separator: &'a str) -> (pieces: Vec<
        &'a str,
    >)
        ensures
            texts(pieces@) == self.path_text(path@, separator@),
    {
        let nodes = self.iter_path_nodes(path);
        let mut pieces: Vec<&'a str> = Vec::new();
        let mut j: usize = 0;
        assert(nodes@.len() > 0) by {
            assert(targets(nodes@).len() == self.path_nodes(path@).len());
        }
        while j < nodes.len()
            invariant
                j <= nodes@.len(),
                j == 0 ==> pieces@.len() == 0,
                j > 0 ==> seq![separator@] + texts(pieces@) == Self::separated(
                    targets(nodes@).subrange(0, j as int),
                    separator@,
                ),
            decreases nodes@.len() - j,
        {
            let ghost before = texts(pieces@);
            if j > 0 {
                pieces.push(separator);
            }
            let ghost opened = texts(pieces@);
            let node = nodes[j];
            let found = node.iter_pieces();
            let mut i: usize = 0;
            while i < found.len()
                invariant
                    i <= found@.len(),
                    texts(pieces@) == opened + texts(found@).subrange(0, i as int),
                decreases found@.len() - i,
            {
                let ghost so_far = texts(pieces@);
                pieces.push(found[i]);
                proof {
                    assert(texts(pieces@) =~= so_far.push(found@[i as int]@));
                    assert(texts(found@).subrange(0, i + 1) =~= texts(found@).subrange(
                        0,
                        i as int,
                    ).push(found@[i as int]@));
                    assert(texts(pieces@) =~= opened + texts(found@).subrange(0, i + 1));
                }
                i += 1;
            }
            proof {
                let upto = targets(nodes@).subrange(0, j + 1);
                assert(upto.drop_last() =~= targets(nodes@).subrange(0, j as int));
                assert(upto.last() == *node);
                assert(texts(found@).subrange(0, found@.len() as int) =~= texts(found@));
                if j > 0 {
                    assert(opened =~= before.push(separator@));
                    assert(seq![separator@] + texts(pieces@) =~= (seq![separator@] + before)
                        + seq![separator@] + node.piece_texts());
                } else {
                    assert(opened =~= Seq::<Seq<char>>::empty());
                    assert(Self::separated(upto.drop_last(), separator@) =~= Seq::<
                        Seq<char>,
                    >::empty());
                    assert(seq![separator@] + texts(pieces@) =~= Seq::<Seq<char>>::empty()
                        + seq![separator@] + node.piece_texts());
                }
            }
            j += 1;
        }
        proof {
            assert(targets(nodes@).subrange(0, nodes@.len() as int) =~= targets(nodes@));
            assert((seq![separator@] + texts(pieces@)).drop_first() =~= texts(pieces@));
        }
        pieces
    }

    /// Makes the whole text one piece, as after an edit by hand.
    pub fn reset_pieces(&mut self)
        ensures
            final(self).pieces@ == seq![Piece { end: old(self).bytes().len() as usize }],
            final(self).text == old(self).text,
            final(self).author_id == old(self).author_id,
            final(self).children == old(self).children,
            final(self).meta == old(self).meta,
    {
        let end = self.text.as_str().len();
        self.pieces.clear();
        self.pieces.push(Piece { end });
        proof {
            assert(self.pieces@ =~= seq![Piece { end }]);
        }
    }

    /// Removes the whitespace at the end of the text and makes the pieces
    /// fit: pieces that end beyond the new end are dropped, and the last
    /// piece ends where the text ends.
    pub fn trim_end_whitespace(&mut self)
        ensures
            final(self).text@ == trimmed(old(self).text@),
            final(self).pieces@ == closed_at(
                fitting(old(self).pieces@, final(self).bytes().len() as usize),
                final(self).bytes().len() as usize,
            ),
            final(self).author_id == old(self).author_id,
            final(self).children == old(self).children,
            final(self).meta == old(self).meta,
    {
        let kept = trim_end(self.text.as_str()).to_owned();
        proof {
            lemma_trimmed_is_unique(self.text@, kept@);
        }
        let len: usize = kept.as_str().len();
        self.text = kept;
        let mut going = true;
        while going && self.pieces.len() > 0
            invariant
                self.text@ == trimmed(old(self).text@),
                self.author_id == old(self).author_id,
                self.children == old(self).children,
                self.meta == old(self).meta,
                fitting(self.pieces@, len) == fitting(old(self).pieces@, len),
                !going ==> self.pieces@.len() > 0 && self.pieces@.last().end <= len,
            decreases self.pieces@.len() + (if going { 1int } else { 0int }),
        {
            let last = self.pieces.len() - 1;
            if self.pieces[last].end > len {
                self.pieces.pop();
            } else {
                going = false;
            }
        }
        let count = self.pieces.len();
        if count == 0 || self.pieces[count - 1].end != len {
            self.pieces.push(Piece { end: len });
        }
    }
}

/// The bytes of a list of texts grow with the list.
pub proof fn lemma_total_bytes_grows(parts: Seq<Seq<char>>, upto: int)
    requires
        0 <= upto <= parts.len(),
    ensures
        total_bytes(parts.subrange(0, upto)) <= total_bytes(parts),
    decreases parts.len() - upto,
{
    if upto == parts.len() {
        assert(parts.subrange(0, upto) =~= parts);
    } else {
        lemma_total_bytes_grows(parts, upto + 1);
        assert(parts.subrange(0, upto + 1).drop_last() =~= parts.subrange(0, upto));
    }
}

impl<T: Default> Default for Node<T> {
    /// A node with no text and no children, written by the first author.
    fn default() -> (node: Self)
        ensures
            node.author_id == 0,
            node.text@.len() == 0,
            node.pieces@.len() == 0,
            node.children@.len() == 0,
    {
        Node::with_author(0)
    }
}

} // verus!
