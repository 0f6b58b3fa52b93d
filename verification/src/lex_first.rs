//! Lexicographic first: render every legal move to its standard notation
//! and play the move whose notation sorts first in code-point order. Fully
//! deterministic; the supplied randomness is ignored, and among moves with
//! equal notation the first in the oracle's enumeration order wins.

use vstd::prelude::*;

use shakmaty::{Chess, Move};

use crate::engine::{Engine, EngineInfo, InfallibleError};
use crate::oracle::{legal_moves, legal_of, san_of, san_string};
use crate::order::{lemma_lex_asym, lemma_lex_connected, lemma_lex_trans, lex_leq, lex_lt,
    str_lex_lt};

verus! {

/// The policy that plays the move whose standard notation is
/// lexicographically first.
pub struct LexicographicallyFirst;

/// The index of the first move among the first `n` legal moves of `p` whose
/// notation sorts no later than any of those `n` notations.
pub open spec fn best_san_idx_upto(p: Chess, n: int) -> int
    decreases n,
{
    if n <= 1 {
        0
    } else if lex_lt(
        san_of(p, legal_of(p)[n - 1]),
        san_of(p, legal_of(p)[best_san_idx_upto(p, n - 1)]),
    ) {
        n - 1
    } else {
        best_san_idx_upto(p, n - 1)
    }
}

/// The index of the move this policy picks in position `p`.
pub open spec fn lex_choice_idx(p: Chess) -> int {
    best_san_idx_upto(p, legal_of(p).len() as int)
}

/// The first-minimum scan is sound: the index is in range, its notation
/// sorts no later than any of the first `n` notations, and the notation of
/// every earlier move sorts strictly later.
pub proof fn lemma_best_san_idx_upto(p: Chess, n: int)
    requires
        1 <= n <= legal_of(p).len(),
    ensures
        0 <= best_san_idx_upto(p, n) < n,
        forall|i: int|
            0 <= i < n ==> lex_leq(
                san_of(p, legal_of(p)[best_san_idx_upto(p, n)]),
                san_of(p, #[trigger] legal_of(p)[i]),
            ),
        forall|i: int|
            0 <= i < best_san_idx_upto(p, n) ==> lex_lt(
                san_of(p, legal_of(p)[best_san_idx_upto(p, n)]),
                san_of(p, #[trigger] legal_of(p)[i]),
            ),
    decreases n,
{
    if n > 1 {
        lemma_best_san_idx_upto(p, n - 1);
        let b = best_san_idx_upto(p, n - 1);
        let sb = san_of(p, legal_of(p)[b]);
        let c = san_of(p, legal_of(p)[n - 1]);
        if lex_lt(c, sb) {
            assert forall|i: int| 0 <= i < n implies lex_leq(c, san_of(p, #[trigger] legal_of(p)[i]))
            by {
                if i < n - 1 {
                    lemma_lex_trans(c, sb, san_of(p, legal_of(p)[i]));
                }
            }
            assert forall|i: int| 0 <= i < n - 1 implies lex_lt(
                c,
                san_of(p, #[trigger] legal_of(p)[i]),
            ) by {
                lemma_lex_trans(c, sb, san_of(p, legal_of(p)[i]));
                if c == san_of(p, legal_of(p)[i]) {
                    lemma_lex_asym(c, sb);
                }
            }
        } else {
            lemma_lex_connected(sb, c);
        }
    }
}

/// The policy's choice is correct and breaks ties in favour of the first
/// move in oracle order: the chosen move's notation sorts no later than any
/// legal move's notation, and the notation of every move enumerated before
/// it sorts strictly later.
pub proof fn lemma_lex_choice_first(p: Chess)
    requires
        legal_of(p).len() > 0,
    ensures
        0 <= lex_choice_idx(p) < legal_of(p).len(),
        forall|i: int|
            0 <= i < legal_of(p).len() ==> lex_leq(
                san_of(p, legal_of(p)[lex_choice_idx(p)]),
                san_of(p, #[trigger] legal_of(p)[i]),
            ),
        forall|i: int|
            0 <= i < lex_choice_idx(p) ==> lex_lt(
                san_of(p, legal_of(p)[lex_choice_idx(p)]),
                san_of(p, #[trigger] legal_of(p)[i]),
            ),
{
    lemma_best_san_idx_upto(p, legal_of(p).len() as int);
}

impl Engine for LexicographicallyFirst {
    type State = ();

    type StatusInfo = ();

    type Error = InfallibleError;

    open spec fn spec_id() -> Seq<char> {
        "lexicographically_first"@
    }

    open spec fn spec_description() -> Seq<char> {
        "Plays the move whose standard notation is lexicographically first."@
    }

    open spec fn initial_state() -> () {
        ()
    }

    open spec fn chosen_move(randomness: u64, state: (), position: Chess) -> Move {
        legal_of(position)[lex_choice_idx(position)]
    }

    open spec fn next_state(
        randomness: u64,
        state: (),
        move_taken: Move,
        position_after: Chess,
    ) -> () {
        state
    }

    fn get_info() -> (r: EngineInfo<()>) {
        EngineInfo {
            id: "lexicographically_first".to_owned(),
            description: "Plays the move whose standard notation is lexicographically first."
                .to_owned(),
            initial_state: (),
        }
    }

    fn propose_move(
        &self,
        randomness: u64,
        current_state: &(),
        current_position: &Chess,
    ) -> (r: Result<(Move, ()), InfallibleError>)
        ensures
            r is Ok,
            (r matches Ok(p) ==> forall|i: int|
                0 <= i < legal_of(*current_position).len() ==> lex_leq(
                    san_of(*current_position, p.0),
                    san_of(*current_position, #[trigger] legal_of(*current_position)[i]),
                )),
    {
        proof {
            lemma_lex_choice_first(*current_position);
        }
        let moves = legal_moves(current_position);
        let mut best_idx: usize = 0;
        let mut best_san: String = san_string(current_position, moves[0]);
        let mut k: usize = 1;
        while k < moves.len()
            invariant
                moves@ == legal_of(*current_position),
                1 <= k <= moves.len(),
                0 <= best_idx < k,
                best_idx as int == best_san_idx_upto(*current_position, k as int),
                best_san@ == san_of(*current_position, moves@[best_idx as int]),
            decreases moves.len() - k,
        {
            let s = san_string(current_position, moves[k]);
            if str_lex_lt(s.as_str(), best_san.as_str()) {
                best_san = s;
                best_idx = k;
            }
            k = k + 1;
        }
        Ok((moves[best_idx], ()))
    }

    fn propose_move_without_info(
        &self,
        randomness: u64,
        current_state: &(),
        current_position: &Chess,
    ) -> (r: Result<Move, InfallibleError>)
        ensures
            r is Ok,
    {
        match self.propose_move(randomness, current_state, current_position) {
            Ok(p) => Ok(p.0),
            Err(e) => Err(e),
        }
    }

    fn observe_move(
        &self,
        randomness: u64,
        current_state: &mut (),
        move_taken: &Move,
        position_after: &Chess,
    ) -> (r: Result<(), InfallibleError>)
        ensures
            r is Ok,
    {
        Ok(())
    }
}

/// Observation is stateless for this policy: whatever move is observed, a
/// later proposal with the same randomness and position selects the same
/// move as before the observation.
pub proof fn lemma_lex_observation_stateless(
    randomness: u64,
    obs_randomness: u64,
    state: (),
    move_taken: Move,
    position_after: Chess,
    position: Chess,
)
    ensures
        LexicographicallyFirst::chosen_move(
            randomness,
            LexicographicallyFirst::next_state(obs_randomness, state, move_taken, position_after),
            position,
        ) == LexicographicallyFirst::chosen_move(randomness, state, position),
{
}

} // verus!
