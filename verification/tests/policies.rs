use basic_strategies::{Engine, LexicographicallyFirst, MinOpptMoves, Random};

use shakmaty::fen::Fen;
use shakmaty::san::San;
use shakmaty::{CastlingMode, Chess, Move, Position};

fn position_from_fen(fen: &str) -> Chess {
    fen.parse::<Fen>()
        .expect("valid FEN")
        .into_position(CastlingMode::Standard)
        .expect("legal position")
}

/// A legal position in which white has exactly one legal move (the king,
/// checked by the rook on h1, can only step to b2).
const ONE_MOVE_FEN: &str = "7k/8/8/8/8/8/P7/K6r w - - 0 1";

fn san_of(pos: &Chess, m: Move) -> String {
    San::from_move(pos, m).to_string()
}

fn reply_count(pos: &Chess, m: Move) -> usize {
    let mut after = pos.clone();
    after.play_unchecked(m);
    after.legal_moves().len()
}

#[test]
fn random_zero_randomness_selects_index_zero() {
    let pos = Chess::default();
    let (m, info) = Random.propose_move(0, &(), &pos).unwrap();
    assert_eq!(info.chosen_move_idx, 0);
    assert_eq!(m, pos.legal_moves()[0]);
}

#[test]
fn random_selects_randomness_mod_count() {
    let pos = Chess::default();
    let legal: Vec<Move> = pos.legal_moves().iter().cloned().collect();
    assert_eq!(legal.len(), 20);
    for rand in [0u64, 1, 13, 19, 20, 25, 1999, u64::MAX] {
        let (m, info) = Random.propose_move(rand, &(), &pos).unwrap();
        let expected_idx = (rand % legal.len() as u64) as usize;
        assert_eq!(info.chosen_move_idx, expected_idx);
        assert_eq!(m, legal[expected_idx]);
    }
}

#[test]
fn random_reports_all_candidates_in_oracle_order() {
    let pos = Chess::default();
    let legal: Vec<Move> = pos.legal_moves().iter().cloned().collect();
    let (_, info) = Random.propose_move(7, &(), &pos).unwrap();
    assert_eq!(info.available_moves.len(), legal.len());
    for (reported, m) in info.available_moves.iter().zip(legal.iter()) {
        assert_eq!(reported, &san_of(&pos, *m));
    }
}

#[test]
fn both_proposal_paths_agree_for_every_policy() {
    for fen_pos in [Chess::default(), position_from_fen(ONE_MOVE_FEN)] {
        for rand in [0u64, 1, 7, 12345, u64::MAX] {
            let (full, _) = Random.propose_move(rand, &(), &fen_pos).unwrap();
            let cheap = Random.propose_move_without_info(rand, &(), &fen_pos).unwrap();
            assert_eq!(full, cheap);

            let (full, _) = MinOpptMoves.propose_move(rand, &(), &fen_pos).unwrap();
            let cheap = MinOpptMoves
                .propose_move_without_info(rand, &(), &fen_pos)
                .unwrap();
            assert_eq!(full, cheap);

            let (full, _) = LexicographicallyFirst
                .propose_move(rand, &(), &fen_pos)
                .unwrap();
            let cheap = LexicographicallyFirst
                .propose_move_without_info(rand, &(), &fen_pos)
                .unwrap();
            assert_eq!(full, cheap);
        }
    }
}

#[test]
fn min_oppt_moves_picks_first_minimum() {
    for pos in [
        Chess::default(),
        position_from_fen("4k3/8/8/8/3q4/8/3P4/4K3 w - - 0 1"),
        position_from_fen("r1bqkbnr/pppp1ppp/2n5/4p3/2B1P3/5N2/PPPP1PPP/RNBQK2R w KQkq - 0 1"),
    ] {
        let legal: Vec<Move> = pos.legal_moves().iter().cloned().collect();
        let scores: Vec<usize> = legal.iter().map(|m| reply_count(&pos, *m)).collect();
        let best = *scores.iter().min().unwrap();
        let first_best = scores.iter().position(|s| *s == best).unwrap();

        let (m, info) = MinOpptMoves.propose_move(0, &(), &pos).unwrap();
        assert_eq!(m, legal[first_best]);
        assert_eq!(info.enemy_moves_after, best);
    }
}

#[test]
fn min_oppt_moves_on_start_reports_twenty_replies() {
    let pos = Chess::default();
    let legal: Vec<Move> = pos.legal_moves().iter().cloned().collect();
    let (m, info) = MinOpptMoves.propose_move(0, &(), &pos).unwrap();
    // Every white first move leaves black all twenty replies, so the
    // first-in-order tie-break applies.
    assert_eq!(info.enemy_moves_after, 20);
    assert_eq!(m, legal[0]);
    assert_eq!(info.enemy_moves_after, reply_count(&pos, m));
}

#[test]
fn lexicographic_first_on_start_plays_knight_a3() {
    let pos = Chess::default();
    let (m, ()) = LexicographicallyFirst.propose_move(0, &(), &pos).unwrap();
    // In code-point order the uppercase piece letter sorts before every
    // lowercase pawn-move notation, so the knight move wins.
    assert_eq!(san_of(&pos, m), "Na3");
}

#[test]
fn lexicographic_first_notation_is_minimal() {
    for pos in [
        Chess::default(),
        position_from_fen("r1bqkbnr/pppp1ppp/2n5/4p3/2B1P3/5N2/PPPP1PPP/RNBQK2R b KQkq - 0 1"),
    ] {
        let (m, ()) = LexicographicallyFirst.propose_move(9, &(), &pos).unwrap();
        let chosen = san_of(&pos, m);
        for other in pos.legal_moves().iter() {
            assert!(chosen <= san_of(&pos, *other));
        }
    }
}

#[test]
fn single_legal_move_is_forced_for_every_policy() {
    let pos = position_from_fen(ONE_MOVE_FEN);
    let legal: Vec<Move> = pos.legal_moves().iter().cloned().collect();
    assert_eq!(legal.len(), 1);
    let only = legal[0];
    for rand in [0u64, 1, 99, u64::MAX] {
        assert_eq!(Random.propose_move(rand, &(), &pos).unwrap().0, only);
        assert_eq!(MinOpptMoves.propose_move(rand, &(), &pos).unwrap().0, only);
        assert_eq!(
            LexicographicallyFirst.propose_move(rand, &(), &pos).unwrap().0,
            only
        );
    }
}

#[test]
fn min_oppt_moves_counts_replies_of_successor_position() {
    let pos = position_from_fen(ONE_MOVE_FEN);
    let only = pos.legal_moves()[0];
    let (m, info) = MinOpptMoves.propose_move(0, &(), &pos).unwrap();
    assert_eq!(m, only);
    // The successor position belongs to the opponent: the count must be the
    // black replies after the move, not the single white move itself.
    assert_eq!(info.enemy_moves_after, reply_count(&pos, only));
    assert_ne!(info.enemy_moves_after, 1);
}

#[test]
fn observation_never_changes_later_proposals() {
    let pos = Chess::default();
    let mut after = pos.clone();
    let played = pos.legal_moves()[3];
    after.play_unchecked(played);

    let before_random = Random.propose_move(11, &(), &pos).unwrap().0;
    let before_min = MinOpptMoves.propose_move(11, &(), &pos).unwrap().0;
    let before_lex = LexicographicallyFirst.propose_move(11, &(), &pos).unwrap().0;

    let mut state = ();
    assert!(Random.observe_move(5, &mut state, &played, &after).is_ok());
    assert!(MinOpptMoves.observe_move(5, &mut state, &played, &after).is_ok());
    assert!(LexicographicallyFirst
        .observe_move(5, &mut state, &played, &after)
        .is_ok());

    assert_eq!(Random.propose_move(11, &state, &pos).unwrap().0, before_random);
    assert_eq!(MinOpptMoves.propose_move(11, &state, &pos).unwrap().0, before_min);
    assert_eq!(
        LexicographicallyFirst.propose_move(11, &state, &pos).unwrap().0,
        before_lex
    );
}

#[test]
fn metadata_identifies_each_policy() {
    let random_info = Random::get_info();
    assert_eq!(random_info.id, "random_move");
    assert_eq!(random_info.description, "Plays a random available legal move");

    let min_info = MinOpptMoves::get_info();
    assert_eq!(min_info.id, "min_oppt_moves");
    assert_eq!(
        min_info.description,
        "Plays the move to which the opponent has the fewest legal responses"
    );

    let lex_info = LexicographicallyFirst::get_info();
    assert_eq!(lex_info.id, "lexicographically_first");
    assert_eq!(
        lex_info.description,
        "Plays the move whose standard notation is lexicographically first."
    );
}
