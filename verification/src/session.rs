//! What the owner of a worker keeps between frames: the stories, which of
//! them is open, and whether a generation is in progress; and what it
//! makes of each answer from the worker.

use vstd::prelude::*;
use crate::lifecycle::Disconnected;
use crate::node::Action;
use crate::protocol::{Capabilities, Command, Response};
use crate::story::Story;

verus! {

/// What the owner does with one answer from the worker.
#[derive(Debug, PartialEq, Eq)]
pub enum Reaction<O, H> {
    /// Nothing: no answer was waiting.
    Wait,
    /// Add the piece to the paragraph that is being written.
    Append { piece: String },
    /// The request is over: tidy the end of the paragraph.
    Finish,
    /// Tell the user that the worker failed.
    Report { detail: String },
    /// Tell the user that the worker was sent a command while generating.
    Rejected { command: Command<O> },
    /// Take note of the models the service offers.
    Models { models: Vec<String> },
    /// Take note of the model that was loaded.
    LoadedModel { path: String, capabilities: Capabilities },
    /// The worker is dead: join its thread.
    Join { handle: H },
    /// There is no worker.
    Gone,
}

/// Whether the user interface is locked because a generation is in
/// progress.
#[derive(Debug, Clone, Copy, PartialEq, Eq)]
pub struct Session {
    pub generation_in_progress: bool,
}

/// What an answer means to the owner while a generation is in progress.
/// `alive` says whether the worker was alive when it was asked.
pub open spec fn reaction_to<O, H>(
    alive: bool,
    answer: Option<Result<Response<O>, Disconnected<H>>>,
) -> Reaction<O, H> {
    match answer {
        None => if alive {
            Reaction::Wait
        } else {
            Reaction::Gone
        },
        Some(Err(gone)) => Reaction::Join { handle: gone.handle },
        Some(Ok(Response::Predicted { piece })) => Reaction::Append { piece },
        Some(Ok(Response::Done)) => Reaction::Finish,
        Some(Ok(Response::Busy { command })) => Reaction::Rejected { command },
        Some(Ok(Response::Error { detail })) => Reaction::Report { detail },
        Some(Ok(Response::Models { models })) => Reaction::Models { models },
        Some(Ok(Response::LoadedModel { path, capabilities })) => Reaction::LoadedModel {
            path,
            capabilities,
        },
    }
}

/// Whether a generation is still in progress after `reaction`: it is over
/// when the worker says so, fails, or is no more.
pub open spec fn still_generating<O, H>(reaction: Reaction<O, H>) -> bool {
    match reaction {
        Reaction::Finish => false,
        Reaction::Report { .. } => false,
        Reaction::Join { .. } => false,
        Reaction::Gone => false,
        _ => true,
    }
}

impl Session {
    /// A session in which nothing is generated.
    pub fn new() -> (session: Self)
        ensures
            !session.generation_in_progress,
    {
        Session { generation_in_progress: false }
    }

    /// Takes note that a request was sent, or could not be sent.
    pub fn requested(&mut self, sent: bool)
        requires
            !old(self).generation_in_progress,
        ensures
            final(self).generation_in_progress == sent,
    {
        self.generation_in_progress = sent;
    }

    /// Turns one answer from the worker into what the owner does about
    /// it, and unlocks the user interface where the generation is over.
    /// `alive` says whether the worker was alive when it was asked.
    pub fn absorb<O, H>(
        &mut self,
        alive: bool,
        answer: Option<Result<Response<O>, Disconnected<H>>>,
    ) -> (reaction: Reaction<O, H>)
        requires
            old(self).generation_in_progress,
        ensures
            reaction == reaction_to(alive, answer),
            final(self).generation_in_progress == still_generating(reaction),
    {
        match answer {
            None => {
                if alive {
                    Reaction::Wait
                } else {
                    self.generation_in_progress = false;
                    Reaction::Gone
                }
            },
            Some(Err(gone)) => {
                self.generation_in_progress = false;
                Reaction::Join { handle: gone.handle }
            },
            Some(Ok(Response::Predicted { piece })) => Reaction::Append { piece },
            Some(Ok(Response::Done)) => {
                self.generation_in_progress = false;
                Reaction::Finish
            },
            Some(Ok(Response::Busy { command })) => Reaction::Rejected { command },
            Some(Ok(Response::Error { detail })) => {
                self.generation_in_progress = false;
                Reaction::Report { detail }
            },
            Some(Ok(Response::Models { models })) => Reaction::Models { models },
            Some(Ok(Response::LoadedModel { path, capabilities })) => Reaction::LoadedModel {
                path,
                capabilities,
            },
        }
    }
}

/// What an action at a node asks of the owner: whether to start a
/// generation, and whether the story must be formatted again.
pub fn story_action_needs(action: &Action) -> (needs: (bool, bool))
    ensures
        needs.0 == (action.continue_ || action.generate is Some),
        needs.1 == action.modified,
{
    (action.action_needed(), action.modified)
}

/// The stories, and which of them is open.
pub struct Stories<T> {
    stories: Vec<Story<T>>,
    active_story: Option<usize>,
}

impl<T> Stories<T> {
    /// The stories, in the order in which they were added.
    pub closed spec fn all(self) -> Seq<Story<T>> {
        self.stories@
    }

    /// The index of the open story, if one is open.
    pub closed spec fn active(self) -> Option<usize> {
        self.active_story
    }

    /// What holds of every shelf: the open story is one of the stories,
    /// and every story is a story.
    pub open spec fn wf(self) -> bool {
        &&& self.active() matches Some(index) ==> index < self.all().len()
        &&& forall|i: int| 0 <= i < self.all().len() ==> (#[trigger] self.all()[i]).wf()
    }

    /// No stories.
    pub fn new() -> (stories: Self)
        ensures
            stories.wf(),
            stories.all().len() == 0,
            stories.active() is None,
    {
        Stories { stories: Vec::new(), active_story: None }
    }

    /// The number of stories.
    pub fn len(&self) -> (count: usize)
        ensures
            count == self.all().len(),
    {
        self.stories.len()
    }

    /// The index of the open story, if one is open.
    pub fn active_story(&self) -> (index: Option<usize>)
        ensures
            index == self.active(),
    {
        self.active_story
    }

    /// Adds a story that was made elsewhere.
    pub fn push(&mut self, story: Story<T>)
        requires
            old(self).wf(),
            story.wf(),
        ensures
            final(self).wf(),
            final(self).all() == old(self).all().push(story),
            final(self).active() == old(self).active(),
    {
        self.stories.push(story);
        proof {
            assert forall|i: int| 0 <= i < self.all().len() implies (#[trigger] self.all()[i]).wf() by {
                if i < old(self).all().len() {
                    assert(self.all()[i] == old(self).all()[i]);
                }
            }
        }
    }

    /// Starts a story called `title` by `author` and opens it.
    pub fn new_story(&mut self, title: String, author: String) where T: Default
        requires
            old(self).wf(),
        ensures
            final(self).wf(),
            final(self).all().len() == old(self).all().len() + 1,
            final(self).all().drop_last() == old(self).all(),
            final(self).active() == Some(old(self).all().len() as usize),
            final(self).all().last().title_text() == title@,
            final(self).all().last().names() == seq![author@],
            final(self).all().last().path() is None,
    {
        self.stories.push(Story::new(title, author));
        self.active_story = Some(self.stories.len() - 1);
        proof {
            assert(self.stories@.drop_last() =~= old(self).stories@);
            assert forall|i: int| 0 <= i < self.all().len() implies (#[trigger] self.all()[i]).wf() by {
                if i < old(self).all().len() {
                    assert(self.all()[i] == old(self).all()[i]);
                }
            }
        }
    }

    /// Opens the story at `index`, if there is one.
    pub fn select(&mut self, index: usize) -> (opened: bool)
        requires
            old(self).wf(),
        ensures
            final(self).wf(),
            final(self).all() == old(self).all(),
            opened == (index < old(self).all().len()),
            opened ==> final(self).active() == Some(index),
            !opened ==> final(self).active() == old(self).active(),
    {
        if index < self.stories.len() {
            self.active_story = Some(index);
            true
        } else {
            false
        }
    }

    /// The story at `index`, if there is one.
    pub fn get(&self, index: usize) -> (story: Option<&Story<T>>)
        ensures
            index < self.all().len() ==> story == Some(&self.all()[index as int]),
            index >= self.all().len() ==> story is None,
    {
        if index < self.stories.len() {
            Some(&self.stories[index])
        } else {
            None
        }
    }

    /// Closes the open story.
    pub fn close(&mut self)
        requires
            old(self).wf(),
        ensures
            final(self).wf(),
            final(self).all() == old(self).all(),
            final(self).active() is None,
    {
        self.active_story = None;
    }

    /// The open story.
    pub fn story(&self) -> (story: Option<&Story<T>>)
        requires
            self.wf(),
        ensures
            match self.active() {
                Some(index) => story == Some(&self.all()[index as int]),
                None => story is None,
            },
    {
        match self.active_story {
            Some(index) => Some(&self.stories[index]),
            None => None,
        }
    }

    /// The open story, for changing. The other stories stay as they are.
    pub fn story_mut(&mut self) -> (story: Option<&mut Story<T>>)
        requires
            old(self).wf(),
        ensures
            final(self).active() == old(self).active(),
            (story matches Some(found) ==> final(found).wf()) ==> final(self).wf(),
            match old(self).active() {
                Some(index) => story matches Some(found) && *found == old(self).all()[index as int]
                    && final(self).all() == old(self).all().update(index as int, *final(found)),
                None => story is None && final(self).all() == old(self).all(),
            },
    {
        match self.active_story {
            Some(index) => Some(&mut self.stories[index]),
            None => None,
        }
    }

    /// Takes the story at `index` off the shelf and hands it out. The open
    /// story stays open, unless it is the one that leaves.
    pub fn remove(&mut self, index: usize) -> (removed: Option<Story<T>>)
        requires
            old(self).wf(),
        ensures
            final(self).wf(),
            index >= old(self).all().len() ==> removed is None && final(self).all() == old(
                self,
            ).all() && final(self).active() == old(self).active(),
            index < old(self).all().len() ==> removed == Some(old(self).all()[index as int])
                && final(self).all() == old(self).all().remove(index as int)
                && final(self).active() == (match old(self).active() {
                None => None,
                Some(open) => if open == index {
                    None
                } else if open > index {
                    Some((open - 1) as usize)
                } else {
                    Some(open)
                },
            }),
    {
        if index >= self.stories.len() {
            return None;
        }
        let removed = self.stories.remove(index);
        self.active_story = match self.active_story {
            None => None,
            Some(open) => if open == index {
                None
            } else if open > index {
                Some(open - 1)
            } else {
                Some(open)
            },
        };
        Some(removed)
    }
}

} // verus!
