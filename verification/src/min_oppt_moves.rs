//! Minimize opponent replies: one-ply lookahead. For each legal move, apply
//! it and count the opponent's legal replies in the resulting position; play
//! the move with the minimum count. Among equal minimal counts the first
//! move in the oracle's enumeration order wins.

use vstd::prelude::*;

use shakmaty::{Chess, Move};

use crate::engine::{Engine, EngineInfo, InfallibleError};
use crate::oracle::{applied, apply_move, legal_moves, legal_of};

verus! {

/// The policy that plays the move to which the opponent has the fewest
/// legal responses.
pub struct MinOpptMoves;

/// Why the move was chosen: the number of legal replies the opponent is
/// left with after the chosen move.
#[derive(Clone, Debug)]
pub struct MinOpptMovesInfo {
    pub enemy_moves_after: usize,
}

/// How many legal replies the opponent has after move `m` is played in
/// position `p`.
pub open spec fn reply_count(p: Chess, m: Move) -> nat {
    legal_of(applied(p, m)).len()
}

/// The index of the first move among the first `n` legal moves of `p` whose
/// reply count is minimal among those `n`.
pub open spec fn best_reply_idx_upto(p: Chess, n: int) -> int
    decreases n,
{
    if n <= 1 {
        0
    } else if reply_count(p, legal_of(p)[n - 1]) < reply_count(
        p,
        legal_of(p)[best_reply_idx_upto(p, n - 1)],
    ) {
        n - 1
    } else {
        best_reply_idx_upto(p, n - 1)
    }
}

/// The index of the move this policy picks in position `p`.
pub open spec fn min_oppt_choice_idx(p: Chess) -> int {
    best_reply_idx_upto(p, legal_of(p).len() as int)
}

/// The first-argmin scan is sound: the index is in range, its reply count
/// is minimal among the first `n` moves, and every earlier move has a
/// strictly larger reply count.
pub proof fn lemma_best_reply_idx_upto(p: Chess, n: int)
    requires
        1 <= n <= legal_of(p).len(),
    ensures
        0 <= best_reply_idx_upto(p, n) < n,
        forall|i: int|
            0 <= i < n ==> reply_count(p, legal_of(p)[best_reply_idx_upto(p, n)])
                <= reply_count(p, #[trigger] legal_of(p)[i]),
        forall|i: int|
            0 <= i < best_reply_idx_upto(p, n) ==> reply_count(p, #[trigger] legal_of(p)[i])
                > reply_count(p, legal_of(p)[best_reply_idx_upto(p, n)]),
    decreases n,
{
    if n > 1 {
        lemma_best_reply_idx_upto(p, n - 1);
    }
}

/// The policy's choice is optimal and breaks ties in favour of the first
/// move in oracle order: the chosen move's reply count is no larger than
/// any legal move's, and every move enumerated before it does strictly
/// worse.
pub proof fn lemma_min_oppt_choice_optimal(p: Chess)
    requires
        legal_of(p).len() > 0,
    ensures
        0 <= min_oppt_choice_idx(p) < legal_of(p).len(),
        forall|i: int|
            0 <= i < legal_of(p).len() ==> reply_count(p, legal_of(p)[min_oppt_choice_idx(p)])
                <= reply_count(p, #[trigger] legal_of(p)[i]),
        forall|i: int|
            0 <= i < min_oppt_choice_idx(p) ==> reply_count(p, #[trigger] legal_of(p)[i])
                > reply_count(p, legal_of(p)[min_oppt_choice_idx(p)]),
{
    lemma_best_reply_idx_upto(p, legal_of(p).len() as int);
}

/// How many legal replies the opponent has after move `m` in position `p`,
/// computed through the oracle.
fn count_replies(p: &Chess, m: Move) -> (r: usize)
    requires
        legal_of(*p).contains(m),
    ensures
        r == reply_count(*p, m),
{
    let after = apply_move(p, m);
    let replies = legal_moves(&after);
    replies.len()
}

impl Engine for MinOpptMoves {
    type State = ();

    type StatusInfo = MinOpptMovesInfo;

    type Error = InfallibleError;

    open spec fn spec_id() -> Seq<char> {
        "min_oppt_moves"@
    }

    open spec fn spec_description() -> Seq<char> {
        "Plays the move to which the opponent has the fewest legal responses"@
    }

    open spec fn initial_state() -> () {
        ()
    }

    open spec fn chosen_move(randomness: u64, state: (), position: Chess) -> Move {
        legal_of(position)[min_oppt_choice_idx(position)]
    }

    open spec fn next_state(
        randomness: u64,
        state: (),
        move_taken: Move,
        position_after: Chess,
    ) -> () {
        state
    }

    fn get_info() -> (r: EngineInfo<()>) {
        EngineInfo {
            id: "min_oppt_moves".to_owned(),
            description: "Plays the move to which the opponent has the fewest legal responses"
                .to_owned(),
            initial_state: (),
        }
    }

    fn propose_move(
        &self,
        randomness: u64,
        current_state: &(),
        current_position: &Chess,
    ) -> (r: Result<(Move, MinOpptMovesInfo), InfallibleError>)
        ensures
            r is Ok,
            (r matches Ok(p) ==> p.1.enemy_moves_after == reply_count(*current_position, p.0)),
            (r matches Ok(p) ==> forall|i: int|
                0 <= i < legal_of(*current_position).len() ==> reply_count(*current_position, p.0)
                    <= reply_count(*current_position, #[trigger] legal_of(*current_position)[i])),
    {
        proof {
            lemma_min_oppt_choice_optimal(*current_position);
        }
        let moves = legal_moves(current_position);
        let mut best_idx: usize = 0;
        let mut best_score: usize = count_replies(current_position, moves[0]);
        let mut k: usize = 1;
        while k < moves.len()
            invariant
                moves@ == legal_of(*current_position),
                1 <= k <= moves.len(),
                0 <= best_idx < k,
                best_idx as int == best_reply_idx_upto(*current_position, k as int),
                best_score == reply_count(*current_position, moves@[best_idx as int]),
            decreases moves.len() - k,
        {
            let score = count_replies(current_position, moves[k]);
            if score < best_score {
                best_score = score;
                best_idx = k;
            }
            k = k + 1;
        }
        Ok((moves[best_idx], MinOpptMovesInfo { enemy_moves_after: best_score }))
    }

    fn propose_move_without_info(
        &self,
        randomness: u64,
        current_state: &(),
        current_position: &Chess,
    ) -> (r: Result<Move, InfallibleError>)
        ensures
            r is Ok,
    {
        match self.propose_move(randomness, current_state, current_position) {
            Ok(p) => Ok(p.0),
            Err(e) => Err(e),
        }
    }

    fn observe_move(
        &self,
        randomness: u64,
        current_state: &mut (),
        move_taken: &Move,
        position_after: &Chess,
    ) -> (r: Result<(), InfallibleError>)
        ensures
            r is Ok,
    {
        Ok(())
    }
}

/// Observation is stateless for this policy: whatever move is observed, a
/// later proposal with the same randomness and position selects the same
/// move as before the observation.
pub proof fn lemma_min_oppt_observation_stateless(
    randomness: u64,
    obs_randomness: u64,
    state: (),
    move_taken: Move,
    position_after: Chess,
    position: Chess,
)
    ensures
        MinOpptMoves::chosen_move(
            randomness,
            MinOpptMoves::next_state(obs_randomness, state, move_taken, position_after),
            position,
        ) == MinOpptMoves::chosen_move(randomness, state, position),
{
}

} // verus!
