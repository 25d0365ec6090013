//! Branching stories and the generation workers that continue them.
//!
//! A story is a tree of paragraphs ([`node`], [`story`]). A worker drives a
//! text-generation backend on a thread of its own and talks to its caller
//! through two channels. What the worker's loop decides at each step is a
//! state machine ([`generation`]) whose behaviour over whole runs is proved:
//! a stop always ends in one `Done`, a busy worker hands every other
//! command back, and text is sent in the order in which it is produced.
//! The caller's side is a handle for each backend ([`drama_llama`] for the
//! local engine, [`openai`] for the remote chat service); both speak the
//! same [`protocol`] and start, stop and shut down alike ([`lifecycle`]).
//!
//! The library never spawns or joins a thread and draws nothing: it says
//! what is to be done, and its owner does it.

pub mod consts;
pub mod protocol;
pub mod generation;
pub mod lifecycle;
pub mod drama_llama;
pub mod openai;
pub mod text;
pub mod node;
pub mod story;
pub mod sidebar;
pub mod numbers;
pub mod settings;
pub mod session;
