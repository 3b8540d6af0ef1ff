//! Client-side runtime for a turn-based grid-world game: the line protocol
//! spoken with the game engine, the world state rebuilt from the engine's
//! commands, the per-round action buffer and the round state machine.

pub mod geometry;
pub mod text;
pub mod codec;
pub mod buffer;
pub mod world;
pub mod coordinator;

pub use buffer::Communicator;
pub use codec::{decode, Action, Command, ParseCommandError};
pub use coordinator::{ClientError, GameCoordinator, ProtocolError, Step, UserBot};
pub use geometry::{Direction, Position};
pub use world::{Cell, WorldProperties, WorldState};
