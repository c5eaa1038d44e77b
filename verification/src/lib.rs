//! A relocatable snapshot codec for a game-tree solver.
//!
//! A solver instance holds the shape of its tree, the scalar fields of
//! every node, and four large storage arenas into which the nodes point.
//! This crate writes such an instance to a compact byte stream and reads it
//! back, possibly in another process where the arenas live at other
//! addresses. Of a node's storage only its distance from the base of its
//! arena is ever written; on reading, addresses are rebuilt on the bases
//! that the caller gives.
//!
//! The whole of the codec is verified with Verus, down to the primitives,
//! which are written and read by `bincode` and specified in [`wire`].
//!
//! * [`wire`]: the layout of the primitives, and the calls into `bincode`.
//! * [`reader`]: a forward-only cursor over a stream.
//! * [`sequence`]: the layout of sequences, generic in the item.
//! * [`state`], [`action`], [`history`]: the lifecycle, the edit log and the
//!   traversal history, each with its codec.
//! * [`arena`]: the bases of the arenas and the addressing context of a
//!   session.
//! * [`node`]: a node and its codec, which rebases its storage references.
//! * [`game`]: the instance and the codec of the whole.
//! * [`rebuild`]: the steps that bring a decoded instance back to life.
//! * [`error`]: why a stream was refused.
//! * [`laws`]: what holds of the codec as a whole.

pub mod action;
pub mod arena;
pub mod error;
pub mod game;
pub mod history;
pub mod laws;
pub mod node;
pub mod reader;
pub mod rebuild;
pub mod sequence;
pub mod state;
pub mod wire;
