//! Event sourced entities.
//!
//! An entity is a state machine with an ID whose state is journaled as an
//! ordered stream of events. Clients send it commands; its behavior, an
//! [`EventSourced`] value, turns each command into events, which are
//! persisted to an event log under increasing sequence numbers and then
//! applied to the behavior. Now and then the behavior asks for a snapshot of
//! its state, which shortens recovery.
//!
//! This library holds the rules of that life: how an entity is recovered
//! from a snapshot and the events after it ([`recovery`]), how one command
//! is handled ([`entity`]), and which result a client gets ([`entity_ref`]).
//! It talks to no store itself. Each step of an entity says what is to be
//! done with the stores next, and the following step takes their answer, so
//! that any runtime can drive it. What holds of every history that these
//! steps can make is stated over a model of the stores ([`model`]) and
//! proved ([`laws`]).
//!
//! Beside these stand the settings of two snapshot stores ([`nats`],
//! [`postgres`]) and a sample behavior ([`counter`]).

pub mod convert;
pub mod counter;
pub mod entity;
pub mod entity_ref;
pub mod event_sourced;
pub mod laws;
pub mod model;
pub mod nats;
pub mod postgres;
pub mod recovery;
pub mod seq_no;
pub mod snapshot;

pub use convert::Binarizer;
pub use entity::{CmdOutcome, Entity, Handling, Persisted, Saving};
pub use entity_ref::EntityRefError;
pub use event_sourced::EventSourced;
pub use recovery::{Opening, Recovering, Replay, Replaying, Restored, SpawnEntityError};
pub use seq_no::{SeqNo, ZeroSeqNoError};
pub use snapshot::Snapshot;
