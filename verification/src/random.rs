//! Uniform random choice: pick the legal move at index
//! `randomness mod count`, where the count is the number of legal moves and
//! the randomness is supplied by the caller.

use vstd::prelude::*;

use shakmaty::{Chess, Move};

use crate::engine::{Engine, EngineInfo, InfallibleError};
use crate::oracle::{legal_moves, legal_of, san_of, san_string};

verus! {

/// The policy that plays a random available legal move.
pub struct Random;

/// Why the move was chosen: every candidate's notation, in oracle order,
/// and the index that the randomness selected.
#[derive(Clone, Debug)]
pub struct RandomStatusInfo {
    pub available_moves: Vec<String>,
    pub chosen_move_idx: usize,
}

/// The index that randomness `randomness` selects among `n` candidates.
pub open spec fn rand_index(randomness: u64, n: int) -> int {
    (randomness as int) % n
}

impl Engine for Random {
    type State = ();

    type StatusInfo = RandomStatusInfo;

    type Error = InfallibleError;

    open spec fn spec_id() -> Seq<char> {
        "random_move"@
    }

    open spec fn spec_description() -> Seq<char> {
        "Plays a random available legal move"@
    }

    open spec fn initial_state() -> () {
        ()
    }

    open spec fn chosen_move(randomness: u64, state: (), position: Chess) -> Move {
        legal_of(position)[rand_index(randomness, legal_of(position).len() as int)]
    }

    open spec fn next_state(
        randomness: u64,
        state: (),
        move_taken: Move,
        position_after: Chess,
    ) -> () {
        state
    }

    fn get_info() -> (r: EngineInfo<()>) {
        EngineInfo {
            id: "random_move".to_owned(),
            description: "Plays a random available legal move".to_owned(),
            initial_state: (),
        }
    }

    fn propose_move(
        &self,
        randomness: u64,
        current_state: &(),
        current_position: &Chess,
    ) -> (r: Result<(Move, RandomStatusInfo), InfallibleError>)
        ensures
            r is Ok,
            (r matches Ok(p) ==> {
                let ms = legal_of(*current_position);
                &&& p.0 == ms[rand_index(randomness, ms.len() as int)]
                &&& p.1.chosen_move_idx == rand_index(randomness, ms.len() as int)
                &&& p.1.available_moves@.len() == ms.len()
                &&& forall|i: int|
                    0 <= i < ms.len() ==> #[trigger] p.1.available_moves@[i]@ == san_of(
                        *current_position,
                        ms[i],
                    )
            }),
    {
        let available_moves: Vec<Move> = legal_moves(current_position);
        let chosen_move_idx: usize = (randomness % (available_moves.len() as u64)) as usize;
        let mut notations: Vec<String> = Vec::new();
        let mut i: usize = 0;
        while i < available_moves.len()
            invariant
                available_moves@ == legal_of(*current_position),
                i <= available_moves.len(),
                notations@.len() == i as int,
                forall|k: int|
                    0 <= k < i as int ==> #[trigger] notations@[k]@ == san_of(
                        *current_position,
                        available_moves@[k],
                    ),
            decreases available_moves.len() - i,
        {
            let s = san_string(current_position, available_moves[i]);
            notations.push(s);
            i = i + 1;
        }
        Ok((
            available_moves[chosen_move_idx],
            RandomStatusInfo { available_moves: notations, chosen_move_idx },
        ))
    }

    fn propose_move_without_info(
        &self,
        randomness: u64,
        current_state: &(),
        current_position: &Chess,
    ) -> (r: Result<Move, InfallibleError>)
        ensures
            r is Ok,
    {
        let moves = legal_moves(current_position);
        let chosen = moves[(randomness % (moves.len() as u64)) as usize];
        Ok(chosen)
    }

    fn observe_move(
        &self,
        randomness: u64,
        current_state: &mut (),
        move_taken: &Move,
        position_after: &Chess,
    ) -> (r: Result<(), InfallibleError>)
        ensures
            r is Ok,
    {
        Ok(())
    }
}

/// Observation is stateless for this policy: whatever move is observed, a
/// later proposal with the same randomness and position selects the same
/// move as before the observation.
pub proof fn lemma_random_observation_stateless(
    randomness: u64,
    obs_randomness: u64,
    state: (),
    move_taken: Move,
    position_after: Chess,
    position: Chess,
)
    ensures
        Random::chosen_move(
            randomness,
            Random::next_state(obs_randomness, state, move_taken, position_after),
            position,
        ) == Random::chosen_move(randomness, state, position),
{
}

} // verus!
