//! Chess move-selection policies, verified.
//!
//! Three reference policies choose a move for a given position: one picks
//! uniformly at random from the legal moves, one minimizes the number of
//! legal replies left to the opponent, and one picks the move whose standard
//! notation sorts first. All three implement the [`Engine`] contract, which
//! pins each policy's selection down to a mathematical choice function.
//! Legal-move generation, move application and notation rendering are
//! delegated to the `shakmaty` rules oracle.

pub mod engine;
pub mod lex_first;
pub mod min_oppt_moves;
pub mod oracle;
pub mod order;
pub mod random;

pub use engine::{Engine, EngineInfo, InfallibleError};
pub use lex_first::LexicographicallyFirst;
pub use min_oppt_moves::{MinOpptMoves, MinOpptMovesInfo};
pub use random::{Random, RandomStatusInfo};
