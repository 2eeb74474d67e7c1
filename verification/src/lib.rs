//! Server-side core of a multiplayer world: the wire codec and the
//! generator of packet types, the session acceptor's decisions, the
//! identifier pool and the per-tick systems, each stated over plain
//! values and proved against its contract.

pub mod characterdata;
pub mod chat;
pub mod chat_system;
pub mod data;
pub mod definition;
pub mod entity;
pub mod gm;
pub mod ids;
pub mod lookup;
pub mod player;
pub mod pos;
pub mod reader;
pub mod scope;
pub mod seqs;
pub mod server;
pub mod session;
pub mod skill;
pub mod structure;
pub mod sync;
pub mod tabular;
pub mod text;
pub mod wire;
pub mod world;
pub mod writer;
