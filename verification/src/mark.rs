//! The content of one cell of the board, and the order in which marks move.

use vstd::prelude::*;

verus! {

/// What a cell holds: nothing, a nought or a cross.
///
/// The host of a game plays `O` and the joiner plays `X`.
#[derive(Clone, Copy, Debug, PartialEq, Eq, Structural)]
pub enum Tic {
    Nil,
    O,
    X,
}

impl Tic {
    /// The mark that moves after `self`; the empty value is followed by `O`.
    pub open spec fn spec_next(&self) -> Tic {
        match *self {
            Tic::Nil => Tic::O,
            Tic::O => Tic::X,
            Tic::X => Tic::O,
        }
    }

    /// Whether `self` is one of the two marks that a player can place.
    pub open spec fn is_mark(self) -> bool {
        self != Tic::Nil
    }

    /// The one character that shows this value on a terminal.
    pub open spec fn glyph(self) -> Seq<char> {
        match self {
            Tic::Nil => seq!['_'],
            Tic::O => seq!['O'],
            Tic::X => seq!['X'],
        }
    }

    /// The mark that moves after this one.
    #[verifier::when_used_as_spec(spec_next)]
    pub fn next(&self) -> (following: Tic)
        ensures
            following == self.spec_next(),
    {
        match self {
            Tic::Nil => Tic::O,
            Tic::O => Tic::X,
            Tic::X => Tic::O,
        }
    }

    /// The text that shows this value: `_`, `O` or `X`.
    pub fn symbol(&self) -> (text: &'static str)
        ensures
            text@ == self.glyph(),
    {
        proof {
            reveal_strlit("_");
            reveal_strlit("O");
            reveal_strlit("X");
        }
        let text = match self {
            Tic::Nil => "_",
            Tic::O => "O",
            Tic::X => "X",
        };
        assert(text@ =~= self.glyph());
        text
    }
}

/// The mark to move once `moves` moves have been applied, when `start` was
/// the first to move: the marker advances once for each applied move.
pub open spec fn turn_after(start: Tic, moves: nat) -> Tic
    decreases moves,
{
    if moves == 0 {
        start
    } else {
        turn_after(start, (moves - 1) as nat).spec_next()
    }
}

/// Turns alternate strictly: after an even number of applied moves the mark
/// that began is to move again, after an odd number the other one is.
pub proof fn lemma_turns_alternate(start: Tic, moves: nat)
    requires
        start.is_mark(),
    ensures
        turn_after(start, moves) == if moves % 2 == 0 {
            start
        } else {
            start.spec_next()
        },
        turn_after(start, moves).is_mark(),
    decreases moves,
{
    if moves > 0 {
        lemma_turns_alternate(start, (moves - 1) as nat);
    }
}

/// From the turn of `O`, `O` is to move after an even number of applied
/// moves and `X` after an odd number.
pub proof fn lemma_turns_from_nought(moves: nat)
    ensures
        moves % 2 == 0 ==> turn_after(Tic::O, moves) == Tic::O,
        moves % 2 == 1 ==> turn_after(Tic::O, moves) == Tic::X,
{
    lemma_turns_alternate(Tic::O, moves);
}

} // verus!
