//! A branching story: a tree of paragraphs, its authors, and the path to
//! the paragraph that is being written.
//!
//! The head of a story is the node at the end of the active path, or the
//! root where there is no active path. New paragraphs grow below the head.

use vstd::prelude::*;
use vstd::string::*;
use crate::consts::{DEFAULT_AUTHOR, DEFAULT_TITLE};
use crate::node::{pieces_of, total_bytes, targets, Node};
use crate::openai::Message;
use crate::text::{join_all, joined, owned, same_text, texts};

verus! {

/// A way to name an author: by name or by number.
#[derive(Debug, Clone, PartialEq, Eq)]
pub enum AuthorID {
    String(String),
    ID(u8),
}

impl From<String> for AuthorID {
    fn from(author: String) -> (id: Self)
    {
        AuthorID::String(author)
    }
}

impl vstd::std_specs::convert::FromSpecImpl<String> for AuthorID {
    open spec fn obeys_from_spec() -> bool {
        true
    }

    open spec fn from_spec(author: String) -> Self {
        AuthorID::String(author)
    }
}

impl From<u8> for AuthorID {
    fn from(author: u8) -> (id: Self)
    {
        AuthorID::ID(author)
    }
}

impl vstd::std_specs::convert::FromSpecImpl<u8> for AuthorID {
    open spec fn obeys_from_spec() -> bool {
        true
    }

    open spec fn from_spec(author: u8) -> Self {
        AuthorID::ID(author)
    }
}

impl AuthorID {
    /// The author of this name.
    pub fn named(author: &str) -> (id: Self)
        ensures
            id matches AuthorID::String(name) && name@ == author@,
    {
        AuthorID::String(owned(author))
    }
}

/// The lines that list `names`, one author to a line.
pub open spec fn author_lines(names: Seq<Seq<char>>) -> Seq<char>
    decreases names.len(),
{
    if names.len() == 0 {
        Seq::empty()
    } else {
        author_lines(names.drop_last()) + "- "@ + names.last() + "\n"@
    }
}

/// The role of message `k` of `count` in a conversation that ends with
/// the user and alternates backwards from there.
pub open spec fn role_at(k: int, count: int) -> Seq<char> {
    if (count - 1 - k) % 2 == 0 {
        "user"@
    } else {
        "assistant"@
    }
}

/// What a story is made of, for keeping it somewhere else.
#[derive(Debug, PartialEq, Eq)]
pub struct Parts<T> {
    pub title: String,
    /// The names of the authors, in the order of their numbers.
    pub authors: Vec<String>,
    pub root: Node<T>,
    pub active_path: Option<Vec<usize>>,
}

/// Why parts do not make a story.
#[derive(Debug, Clone, Copy, PartialEq, Eq, Structural)]
pub enum PartsError {
    /// There are more authors than numbers for them.
    TooManyAuthors,
    /// An author is listed twice.
    DuplicateAuthor,
    /// The active path leads to no node.
    InvalidPath,
}

/// The texts of `names`.
pub open spec fn views(names: Seq<String>) -> Seq<Seq<char>> {
    Seq::new(names.len(), |i: int| names[i]@)
}

/// No text is listed twice in `names`.
pub open spec fn distinct(names: Seq<Seq<char>>) -> bool {
    forall|i: int, j: int| 0 <= i < j < names.len() ==> names[i] != names[j]
}

/// Whether `parts` make a story, and if not, why not. The first thing
/// that is wrong counts: the number of authors, their names, the path.
pub open spec fn parts_error<T>(parts: Parts<T>) -> Option<PartsError> {
    if parts.authors@.len() > 256 {
        Some(PartsError::TooManyAuthors)
    } else if !distinct(views(parts.authors@)) {
        Some(PartsError::DuplicateAuthor)
    } else if parts.active_path matches Some(path) && !parts.root.valid_path(path@) {
        Some(PartsError::InvalidPath)
    } else {
        None
    }
}

/// A branching story.
#[derive(Debug, PartialEq, Eq)]
pub struct Story<T> {
    active_path: Option<Vec<usize>>,
    /// The title; may be empty.
    pub title: String,
    id_to_author: Vec<String>,
    root: Node<T>,
}

impl<T> Story<T> {
    /// The path from the root to the head, if one is set.
    pub closed spec fn path(self) -> Option<Seq<usize>> {
        match self.active_path {
            Some(path) => Some(path@),
            None => None,
        }
    }

    /// The path from the root to the head; empty where none is set.
    pub open spec fn head_path(self) -> Seq<usize> {
        match self.path() {
            Some(path) => path,
            None => Seq::empty(),
        }
    }

    /// The title.
    pub closed spec fn title_text(self) -> Seq<char> {
        self.title@
    }

    /// The names of the authors; an author's number is the index of the
    /// name.
    pub closed spec fn names(self) -> Seq<Seq<char>> {
        Seq::new(self.id_to_author@.len(), |i: int| self.id_to_author@[i]@)
    }

    /// The first paragraph of the story.
    pub closed spec fn root(self) -> Node<T> {
        self.root
    }

    /// The node that is being written.
    pub open spec fn head_node(self) -> Node<T> {
        self.root().node_at(self.head_path())
    }

    /// What holds of every story: the active path leads to a node, no
    /// author is listed twice, and every author's number fits a byte.
    pub open spec fn wf(self) -> bool {
        &&& self.root().valid_path(self.head_path())
        &&& self.names().len() <= 256
        &&& forall|i: int, j: int|
            0 <= i < j < self.names().len() ==> self.names()[i] != self.names()[j]
    }

    /// Whether `author` names an author of the story.
    pub open spec fn knows(self, author: AuthorID) -> bool {
        match author {
            AuthorID::String(name) => self.names().contains(name@),
            AuthorID::ID(id) => id < self.names().len(),
        }
    }

    /// The story as text: the title, the authors, an empty line, and the
    /// paragraphs from the root to the head, one to a line.
    pub open spec fn formatted(self, include_authors: bool, include_title: bool) -> Seq<char> {
        let title = if !include_title {
            Seq::<char>::empty()
        } else if self.title_text().len() == 0 {
            "# "@ + DEFAULT_TITLE@ + "\n"@
        } else {
            "# "@ + self.title_text() + "\n"@
        };
        let authors = if !include_authors {
            Seq::<char>::empty()
        } else if self.names().len() == 0 {
            "By: "@ + DEFAULT_AUTHOR@ + "\n"@
        } else {
            "By:\n"@ + author_lines(self.names())
        };
        let gap = if include_authors || include_title {
            "\n"@
        } else {
            Seq::<char>::empty()
        };
        let body = match self.path() {
            Some(path) => joined(self.root().path_text(path, "\n"@)),
            None => joined(self.root().piece_texts()),
        };
        title + authors + gap + body
    }

    /// The nodes from the root to the head.
    pub open spec fn told(self) -> Seq<Node<T>> {
        match self.path() {
            Some(path) => self.root().path_nodes(path),
            None => seq![self.root()],
        }
    }

    /// The index of the author called `name`, if there is one.
    fn find_author(&self, name: &str) -> (found: Option<usize>)
        ensures
            found is Some <==> self.names().contains(name@),
            found matches Some(index) ==> index < self.names().len() && self.names()[index as int]
                == name@,
    {
        let mut i: usize = 0;
        while i < self.id_to_author.len()
            invariant
                i <= self.id_to_author@.len(),
                forall|j: int| 0 <= j < i ==> self.names()[j] != name@,
            decreases self.id_to_author@.len() - i,
        {
            if same_text(self.id_to_author[i].as_str(), name) {
                assert(self.names()[i as int] == name@);
                return Some(i);
            }
            i += 1;
        }
        None
    }

    /// Whether no name is listed twice in `names`.
    fn all_distinct(names: &Vec<String>) -> (distinct_names: bool)
        ensures
            distinct_names == distinct(views(names@)),
    {
        let mut j: usize = 0;
        while j < names.len()
            invariant
                j <= names@.len(),
                forall|a: int, b: int| 0 <= a < b < j ==> views(names@)[a] != views(names@)[b],
            decreases names@.len() - j,
        {
            let mut i: usize = 0;
            while i < j
                invariant
                    i <= j,
                    j < names@.len(),
                    forall|a: int| 0 <= a < i ==> views(names@)[a] != views(names@)[j as int],
                decreases j - i,
            {
                if same_text(names[i].as_str(), names[j].as_str()) {
                    proof {
                        assert(views(names@)[i as int] == views(names@)[j as int]);
                    }
                    return false;
                }
                i += 1;
            }
            j += 1;
        }
        true
    }

    /// Puts a story together from its parts, if they make one.
    pub fn from_parts(parts: Parts<T>) -> (made: Result<Self, PartsError>)
        ensures
            match made {
                Ok(story) => {
                    &&& parts_error(parts) is None
                    &&& story.wf()
                    &&& story.title_text() == parts.title@
                    &&& story.names() == views(parts.authors@)
                    &&& story.root() == parts.root
                    &&& story.path() == (match parts.active_path {
                        Some(path) => Some(path@),
                        None => None,
                    })
                },
                Err(error) => parts_error(parts) == Some(error),
            },
    {
        if parts.authors.len() > 256 {
            return Err(PartsError::TooManyAuthors);
        }
        if !Self::all_distinct(&parts.authors) {
            return Err(PartsError::DuplicateAuthor);
        }
        let valid = match &parts.active_path {
            Some(path) => parts.root.is_valid_path(path.as_slice()),
            None => true,
        };
        if !valid {
            return Err(PartsError::InvalidPath);
        }
        let story = Story {
            active_path: parts.active_path,
            title: parts.title,
            id_to_author: parts.authors,
            root: parts.root,
        };
        proof {
            assert(story.names() =~= views(parts.authors@));
        }
        Ok(story)
    }

    /// Takes the story apart.
    pub fn into_parts(self) -> (parts: Parts<T>)
        ensures
            parts.title@ == self.title_text(),
            views(parts.authors@) == self.names(),
            parts.root == self.root(),
            self.path() == (match parts.active_path {
                Some(path) => Some(path@),
                None => None,
            }),
            self.wf() ==> parts_error(parts) is None,
    {
        proof {
            assert(views(self.id_to_author@) =~= self.names());
        }
        Parts {
            title: self.title,
            authors: self.id_to_author,
            root: self.root,
            active_path: self.active_path,
        }
    }

    /// The path from the root to the head, if one is set.
    pub fn active_path(&self) -> (path: Option<&Vec<usize>>)
        ensures
            match path {
                Some(found) => self.path() == Some(found@),
                None => self.path() is None,
            },
    {
        self.active_path.as_ref()
    }

    /// The first paragraph of the story, with all that follows.
    pub fn root_node(&self) -> (root: &Node<T>)
        ensures
            *root == self.root(),
    {
        &self.root
    }

    /// Makes the node that `path` leads to the head, if it leads to one.
    pub fn select(&mut self, path: Vec<usize>) -> (selected: bool)
        requires
            old(self).wf(),
        ensures
            final(self).wf(),
            selected == old(self).root().valid_path(path@),
            selected ==> final(self).path() == Some(path@),
            !selected ==> final(self).path() == old(self).path(),
            final(self).root() == old(self).root(),
            final(self).names() == old(self).names(),
            final(self).title_text() == old(self).title_text(),
    {
        if self.root.is_valid_path(path.as_slice()) {
            self.active_path = Some(path);
            true
        } else {
            false
        }
    }

    /// A story called `title` with one author and an empty first
    /// paragraph.
    pub fn new(title: String, author: String) -> (story: Self) where T: Default
        ensures
            story.wf(),
            story.title_text() == title@,
            story.names() == seq![author@],
            story.path() is None,
            story.root().text@.len() == 0,
            story.root().pieces@.len() == 0,
            story.root().children@.len() == 0,
    {
        let mut id_to_author: Vec<String> = Vec::new();
        id_to_author.push(author);
        let story = Story { active_path: None, title, id_to_author, root: Node::with_author(0) };
        proof {
            assert(story.names() =~= seq![author@]);
        }
        story
    }

    /// The node that is being written.
    pub fn head(&self) -> (head: &Node<T>)
        requires
            self.wf(),
        ensures
            *head == self.head_node(),
    {
        match &self.active_path {
            Some(path) => {
                let nodes = self.root.iter_path_nodes(path.as_slice());
                proof {
                    self.root.lemma_path_nodes_end(path@);
                    assert(targets(nodes@).len() == nodes@.len());
                }
                nodes[nodes.len() - 1]
            },
            None => &self.root,
        }
    }

    /// The node that is being written, for changing. Whatever is done to
    /// it, the rest of the story stays as it is.
    pub fn head_mut(&mut self) -> (head: &mut Node<T>)
        requires
            old(self).wf(),
        ensures
            *head == old(self).head_node(),
            old(self).root().rewritten(final(self).root(), old(self).head_path(), *final(head)),
            final(self).path() == old(self).path(),
            final(self).names() == old(self).names(),
            final(self).title_text() == old(self).title_text(),
            final(self).wf(),
    {
        proof {
            let before = self.root;
            assert forall|after: Node<T>, replacement: Node<T>| #[trigger]
                before.rewritten(after, self.head_path(), replacement) implies after.valid_path(
                self.head_path(),
            ) by {
                before.lemma_rewritten_reaches(after, self.head_path(), replacement);
            }
        }
        match &self.active_path {
            Some(path) => self.root.node_at_mut(path.as_slice()),
            None => &mut self.root,
        }
    }

    /// Adds `author` to the authors, unless the name is there already, and
    /// says what the author's number is.
    pub fn add_author(&mut self, author: String) -> (id: u8)
        requires
            old(self).wf(),
            old(self).names().contains(author@) || old(self).names().len() < 256,
        ensures
            final(self).wf(),
            old(self).names().contains(author@) ==> final(self).names() == old(self).names(),
            !old(self).names().contains(author@) ==> final(self).names() == old(
                self,
            ).names().push(author@) && id == old(self).names().len(),
            final(self).names()[id as int] == author@,
            final(self).path() == old(self).path(),
            final(self).root() == old(self).root(),
            final(self).title_text() == old(self).title_text(),
    {
        match self.find_author(author.as_str()) {
            Some(index) => index as u8,
            None => {
                let index = self.id_to_author.len();
                self.id_to_author.push(author);
                proof {
                    assert(self.names() =~= old(self).names().push(author@));
                }
                index as u8
            },
        }
    }

    /// The number of the author that `author` names, if there is one.
    pub fn get_author(&self, author: AuthorID) -> (id: Option<u8>)
        requires
            self.wf(),
        ensures
            id is Some <==> self.knows(author),
            id matches Some(number) ==> number < self.names().len() && match author {
                AuthorID::String(name) => self.names()[number as int] == name@,
                AuthorID::ID(given) => number == given,
            },
    {
        match author {
            AuthorID::String(name) => match self.find_author(name.as_str()) {
                Some(index) => Some(index as u8),
                None => None,
            },
            AuthorID::ID(id) => {
                if (id as usize) < self.id_to_author.len() {
                    Some(id)
                } else {
                    None
                }
            },
        }
    }

    /// The authors: number and name, in the order of the numbers.
    pub fn authors(&self) -> (authors: Vec<(u8, &str)>)
        requires
            self.wf(),
        ensures
            authors@.len() == self.names().len(),
            forall|i: int|
                0 <= i < authors@.len() ==> (#[trigger] authors@[i]).0 == i && authors@[i].1@
                    == self.names()[i],
    {
        let mut authors: Vec<(u8, &str)> = Vec::new();
        let mut i: usize = 0;
        while i < self.id_to_author.len()
            invariant
                i <= self.id_to_author@.len(),
                self.id_to_author@.len() <= 256,
                authors@.len() == i,
                forall|j: int|
                    0 <= j < i ==> (#[trigger] authors@[j]).0 == j && authors@[j].1@
                        == self.names()[j],
            decreases self.id_to_author@.len() - i,
        {
            authors.push((i as u8, self.id_to_author[i].as_str()));
            i += 1;
        }
        authors
    }

    /// Starts a new paragraph by `author` below the head, made of
    /// `strings`, and makes it the head.
    pub fn add_paragraph(&mut self, author: AuthorID, strings: &[&str]) where T: Default
        requires
            old(self).wf(),
            old(self).knows(author),
            total_bytes(texts(strings@)) <= usize::MAX,
        ensures
            final(self).wf(),
            final(self).path() == Some(
                old(self).head_path().push(old(self).head_node().children@.len() as usize),
            ),
            final(self).head_node().text@ == joined(texts(strings@)),
            final(self).head_node().pieces@ == pieces_of(0, texts(strings@)),
            final(self).head_node().children@.len() == 0,
            match author {
                AuthorID::String(name) => old(self).names()[final(self).head_node().author_id as int]
                    == name@,
                AuthorID::ID(given) => final(self).head_node().author_id == given,
            },
            old(self).root().rewritten(
                final(self).root(),
                old(self).head_path(),
                final(self).root().node_at(old(self).head_path()),
            ),
            final(self).root().node_at(old(self).head_path()).children@ == old(
                self,
            ).head_node().children@.push(final(self).head_node()),
            final(self).root().node_at(old(self).head_path()).text == old(self).head_node().text,
            final(self).root().node_at(old(self).head_path()).pieces == old(
                self,
            ).head_node().pieces,
            final(self).root().node_at(old(self).head_path()).author_id == old(
                self,
            ).head_node().author_id,
            final(self).names() == old(self).names(),
            final(self).title_text() == old(self).title_text(),
    {
        let id = self.get_author(author).unwrap();
        let mut child: Node<T> = Node::with_author(id);
        proof {
            vstd::utf8::encode_utf8_decode_utf8(child.text@);
            assert(child.text@ =~= Seq::<char>::empty());
            assert(child.bytes() =~= Seq::<u8>::empty()) by {
                reveal_with_fuel(vstd::utf8::encode_utf8, 1);
            }
        }
        child.extend_strings(strings);
        proof {
            assert(child.text@ =~= joined(texts(strings@)));
            assert(child.pieces@ =~= pieces_of(0, texts(strings@)));
        }
        let ghost before = self.root;
        let ghost way = self.head_path();
        let head = self.head_mut();
        let index = head.add_child(child);
        let ghost grown = *head;
        proof {
            before.lemma_rewritten_reaches(self.root, way, grown);
            self.root.lemma_path_extends(way, index);
        }
        match &mut self.active_path {
            Some(path) => {
                path.push(index);
            },
            None => {
                let mut path: Vec<usize> = Vec::new();
                path.push(index);
                proof {
                    assert(path@ =~= way.push(index));
                }
                self.active_path = Some(path);
            },
        }
    }

    /// Adds `strings` to the paragraph that is being written, each as a
    /// piece of its own.
    pub fn extend_paragraph(&mut self, strings: &[&str])
        requires
            old(self).wf(),
            old(self).head_node().bytes().len() + total_bytes(texts(strings@)) <= usize::MAX,
        ensures
            final(self).wf(),
            final(self).path() == old(self).path(),
            old(self).root().rewritten(
                final(self).root(),
                old(self).head_path(),
                final(self).head_node(),
            ),
            final(self).head_node().text@ == old(self).head_node().text@ + joined(
                texts(strings@),
            ),
            final(self).head_node().pieces@ == old(self).head_node().pieces@ + pieces_of(
                old(self).head_node().bytes().len(),
                texts(strings@),
            ),
            final(self).head_node().author_id == old(self).head_node().author_id,
            final(self).head_node().children == old(self).head_node().children,
            final(self).head_node().meta == old(self).head_node().meta,
            final(self).names() == old(self).names(),
            final(self).title_text() == old(self).title_text(),
    {
        let ghost before = self.root;
        let ghost way = self.head_path();
        let head = self.head_mut();
        head.extend_strings(strings);
        let ghost grown = *head;
        proof {
            before.lemma_rewritten_reaches(self.root, way, grown);
        }
    }

    /// Cuts the head off the story, with all that grew from it, and hands
    /// it out; the head's parent becomes the head. The root cannot be cut
    /// off: a story whose head is the root only loses its active path.
    pub fn decapitate(&mut self) -> (cut: Option<Node<T>>)
        requires
            old(self).wf(),
        ensures
            final(self).wf(),
            final(self).names() == old(self).names(),
            final(self).title_text() == old(self).title_text(),
            old(self).head_path().len() == 0 ==> cut is None && final(self).path() is None
                && final(self).root() == old(self).root(),
            old(self).head_path().len() > 0 ==> {
                let way = old(self).head_path().drop_last();
                let index = old(self).head_path().last() as int;
                &&& cut == Some(old(self).head_node())
                &&& final(self).path() == Some(way)
                &&& old(self).root().rewritten(final(self).root(), way, final(self).head_node())
                &&& final(self).head_node().children@ == old(self).root().node_at(
                    way,
                ).children@.remove(index)
                &&& final(self).head_node().text == old(self).root().node_at(way).text
                &&& final(self).head_node().pieces == old(self).root().node_at(way).pieces
                &&& final(self).head_node().author_id == old(self).root().node_at(way).author_id
                &&& final(self).head_node().meta == old(self).root().node_at(way).meta
            },
    {
        let ghost before = self.root;
        let ghost full = self.head_path();
        let popped = match &mut self.active_path {
            Some(path) => path.pop(),
            None => None,
        };
        match popped {
            None => {
                self.active_path = None;
                None
            },
            Some(index) => {
                proof {
                    before.lemma_path_parent(full);
                    assert(self.head_path() =~= full.drop_last());
                }
                let ghost way = self.head_path();
                let head = self.head_mut();
                let cut = head.children.remove(index);
                let ghost pruned = *head;
                proof {
                    before.lemma_rewritten_reaches(self.root, way, pruned);
                }
                Some(cut)
            },
        }
    }

    /// The story as text. See `formatted`.
    pub fn format_full(&self, include_authors: bool, include_title: bool) -> (text: String)
        ensures
            text@ == self.formatted(include_authors, include_title),
    {
        let mut text = String::new();
        if include_title {
            text.append("# ");
            if self.title.as_str().is_empty() {
                text.append(DEFAULT_TITLE);
            } else {
                text.append(self.title.as_str());
            }
            text.append("\n");
        }
        let ghost titled = text@;
        if include_authors {
            if self.id_to_author.len() == 0 {
                text.append("By: ");
                text.append(DEFAULT_AUTHOR);
                text.append("\n");
            } else {
                text.append("By:\n");
                let ghost opened = text@;
                let mut i: usize = 0;
                while i < self.id_to_author.len()
                    invariant
                        i <= self.id_to_author@.len(),
                        text@ == opened + author_lines(self.names().subrange(0, i as int)),
                    decreases self.id_to_author@.len() - i,
                {
                    proof {
                        let upto = self.names().subrange(0, i + 1);
                        assert(upto.drop_last() =~= self.names().subrange(0, i as int));
                        assert(upto.last() == self.id_to_author@[i as int]@);
                    }
                    let ghost so_far = text@;
                    text.append("- ");
                    text.append(self.id_to_author[i].as_str());
                    text.append("\n");
                    proof {
                        assert(text@ =~= opened + author_lines(self.names().subrange(0, i + 1)));
                    }
                    i += 1;
                }
                proof {
                    assert(self.names().subrange(0, self.names().len() as int) =~= self.names());
                    assert(text@ =~= titled + ("By:\n"@ + author_lines(self.names())));
                }
            }
        }
        let ghost headed = text@;
        if include_authors || include_title {
            text.append("\n");
        }
        let ghost spaced = text@;
        let body = match &self.active_path {
            Some(path) => {
                let pieces = self.root.iter_path_text(path.as_slice(), "\n");
                join_all(&pieces)
            },
            None => self.root.to_text(),
        };
        text.append(body.as_str());
        proof {
            assert(text@ =~= self.formatted(include_authors, include_title));
        }
        text
    }

    /// The story as text, with its title and its authors.
    pub fn to_string(&self) -> (text: String)
        ensures
            text@ == self.formatted(true, true),
    {
        self.format_full(true, true)
    }

    /// The story as a conversation: one message for each paragraph from
    /// the root to the head. The last message is the user's, the one
    /// before it the assistant's, and so on back to the root.
    pub fn to_openai_messages(&self) -> (messages: Vec<Message>)
        ensures
            messages@.len() == self.told().len(),
            forall|k: int|
                0 <= k < messages@.len() ==> (#[trigger] messages@[k]).content@ == joined(
                    self.told()[k].piece_texts(),
                ) && messages@[k].role@ == role_at(k, messages@.len() as int),
    {
        let nodes = match &self.active_path {
            Some(path) => self.root.iter_path_nodes(path.as_slice()),
            None => {
                let mut only: Vec<&Node<T>> = Vec::new();
                only.push(&self.root);
                proof {
                    assert(targets(only@) =~= seq![self.root]);
                }
                only
            },
        };
        assert(targets(nodes@) == self.told());
        let count = nodes.len();
        let mut messages: Vec<Message> = Vec::new();
        let mut k: usize = 0;
        while k < count
            invariant
                k <= count,
                count == nodes@.len(),
                targets(nodes@) == self.told(),
                messages@.len() == k,
                forall|j: int|
                    0 <= j < k ==> (#[trigger] messages@[j]).content@ == joined(
                        self.told()[j].piece_texts(),
                    ) && messages@[j].role@ == role_at(j, count as int),
            decreases count - k,
        {
            let content = nodes[k].to_text();
            assert(targets(nodes@)[k as int] == *nodes@[k as int]);
            let role = if (count - 1 - k) % 2 == 0 {
                owned("user")
            } else {
                owned("assistant")
            };
            messages.push(Message { role, content });
            k += 1;
        }
        messages
    }
}

impl<T: Default> Default for Story<T> {
    /// A story with no title, no authors and an empty first paragraph.
    fn default() -> (story: Self)
        ensures
            story.wf(),
            story.title_text().len() == 0,
            story.names().len() == 0,
            story.path() is None,
            story.root().text@.len() == 0,
            story.root().pieces@.len() == 0,
            story.root().children@.len() == 0,
    {
        Story {
            active_path: None,
            title: String::new(),
            id_to_author: Vec::new(),
            root: Node::with_author(0),
        }
    }
}

} // verus!
