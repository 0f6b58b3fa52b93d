//! The rules oracle: the narrow interface to the `shakmaty` chess engine.
//!
//! The oracle is a pure function of the position: it enumerates the legal
//! moves in a fixed order, applies a legal move to produce the successor
//! position, and renders a move as standard algebraic notation. Each of the
//! three results is deterministic in its arguments, so each gets an
//! uninterpreted name that the policies' contracts are stated over.

use vstd::prelude::*;

use shakmaty::san::San;
use shakmaty::{Chess, Move, Position};

verus! {

#[verifier::external_type_specification]
#[verifier::external_body]
pub struct ExChess(Chess);

#[verifier::external_type_specification]
#[verifier::external_body]
pub struct ExMove(Move);

/// The legal moves of position `p`, in the oracle's enumeration order.
pub uninterp spec fn legal_of(p: Chess) -> Seq<Move>;

/// The position reached from `p` by playing the legal move `m`.
pub uninterp spec fn applied(p: Chess, m: Move) -> Chess;

/// The standard algebraic notation of move `m` in position `p`.
pub uninterp spec fn san_of(p: Chess, m: Move) -> Seq<char>;

/// Relies on shakmaty's `Position::legal_moves` for `Chess`: it enumerates
/// the legal moves of the position, in an order that depends on the position
/// alone.
#[verifier::external_body]
pub(crate) fn legal_moves(p: &Chess) -> (r: Vec<Move>)
    ensures
        r@ == legal_of(*p),
{
    p.legal_moves().into_iter().collect()
}

/// Relies on shakmaty's `Position::play_unchecked` for `Chess`: on a legal
/// move it produces the successor position, a function of the position and
/// the move alone. On an illegal move it may panic or corrupt the board,
/// which the precondition rules out.
#[verifier::external_body]
pub(crate) fn apply_move(p: &Chess, m: Move) -> (r: Chess)
    requires
        legal_of(*p).contains(m),
    ensures
        r == applied(*p, m),
{
    let mut q = p.clone();
    q.play_unchecked(m);
    q
}

/// Relies on shakmaty's `San::from_move` and its `Display` rendering: the
/// standard algebraic notation of a legal move, a function of the position
/// and the move alone.
#[verifier::external_body]
pub(crate) fn san_string(p: &Chess, m: Move) -> (r: String)
    requires
        legal_of(*p).contains(m),
    ensures
        r@ == san_of(*p, m),
{
    San::from_move(p, m).to_string()
}

} // verus!
