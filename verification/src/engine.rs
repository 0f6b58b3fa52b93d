//! The engine contract: the capability set every move-selection policy
//! implements, so a dispatch shell can treat all policies uniformly.
//!
//! A policy's selection is pinned down by its `chosen_move` choice function:
//! both proposal operations must return exactly that move, and the move must
//! be one of the oracle's legal moves for the position in the same call. A
//! policy's reaction to an observed move is pinned down by `next_state`.

use vstd::prelude::*;

use shakmaty::{Chess, Move};

use crate::oracle::legal_of;

verus! {

/// The metadata of a registered policy: its dispatch identifier, a
/// human-readable description, and the initial internal state of a fresh
/// instance.
pub struct EngineInfo<State> {
    pub id: String,
    pub description: String,
    pub initial_state: State,
}

/// The error type of a policy that promises never to fail: the reference
/// policies all ensure `Ok`, so no value of it is ever produced.
#[derive(Clone, Copy, Debug)]
pub struct InfallibleError;

/// A move-selection policy.
///
/// Proposal may only be invoked on positions with at least one legal move;
/// a terminal position is a caller contract violation. Whenever a proposal
/// operation succeeds it returns `Self::chosen_move` of its inputs, so the
/// cheap path `propose_move_without_info` selects exactly the move that
/// `propose_move` selects, and that move is legal in the given position.
pub trait Engine: Sized {
    type State;

    type StatusInfo;

    type Error;

    /// The dispatch identifier this policy registers under.
    spec fn spec_id() -> Seq<char>;

    /// The human-readable description of this policy.
    spec fn spec_description() -> Seq<char>;

    /// The internal state a fresh instance of this policy starts from.
    spec fn initial_state() -> Self::State;

    /// The move this policy selects for the given inputs.
    spec fn chosen_move(randomness: u64, state: Self::State, position: Chess) -> Move;

    /// The internal state this policy moves to on observing a played move.
    spec fn next_state(
        randomness: u64,
        state: Self::State,
        move_taken: Move,
        position_after: Chess,
    ) -> Self::State;

    fn get_info() -> (r: EngineInfo<Self::State>)
        ensures
            r.id@ == Self::spec_id(),
            r.description@ == Self::spec_description(),
            r.initial_state == Self::initial_state(),
    ;

    fn propose_move(
        &self,
        randomness: u64,
        current_state: &Self::State,
        current_position: &Chess,
    ) -> (r: Result<(Move, Self::StatusInfo), Self::Error>)
        requires
            legal_of(*current_position).len() > 0,
        ensures
            (r matches Ok(p) ==> p.0 == Self::chosen_move(
                randomness,
                *current_state,
                *current_position,
            )),
            (r matches Ok(p) ==> legal_of(*current_position).contains(p.0)),
    ;

    fn propose_move_without_info(
        &self,
        randomness: u64,
        current_state: &Self::State,
        current_position: &Chess,
    ) -> (r: Result<Move, Self::Error>)
        requires
            legal_of(*current_position).len() > 0,
        ensures
            (r matches Ok(m) ==> m == Self::chosen_move(
                randomness,
                *current_state,
                *current_position,
            )),
            (r matches Ok(m) ==> legal_of(*current_position).contains(m)),
    {
        match self.propose_move(randomness, current_state, current_position) {
            Ok(p) => Ok(p.0),
            Err(e) => Err(e),
        }
    }

    fn observe_move(
        &self,
        randomness: u64,
        current_state: &mut Self::State,
        move_taken: &Move,
        position_after: &Chess,
    ) -> (r: Result<(), Self::Error>)
        ensures
            (r is Ok ==> *final(current_state) == Self::next_state(
                randomness,
                *old(current_state),
                *move_taken,
                *position_after,
            )),
    ;
}

/// The two proposal operations agree for every policy: each of them ensures
/// that a returned move equals `E::chosen_move` of the call's inputs, so any
/// move the full proposal returns and any move the cheap path returns for
/// the same randomness, state and position are the same move.
pub proof fn lemma_proposal_paths_agree<E: Engine>(
    full: Move,
    cheap: Move,
    randomness: u64,
    state: E::State,
    position: Chess,
)
    requires
        full == E::chosen_move(randomness, state, position),
        cheap == E::chosen_move(randomness, state, position),
    ensures
        full == cheap,
{
}

} // verus!
