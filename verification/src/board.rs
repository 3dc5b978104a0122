//! The board and the rule that decides a game.
//!
//! A board is modelled as a sequence of nine cells, row by row: the cell in
//! column `x` of row `y` stands at index `x + 3 * y`.

use crate::mark::Tic;
use vstd::prelude::*;

verus! {

/// Whether `g` has the shape of a board: nine cells.
pub open spec fn is_grid(g: Seq<Tic>) -> bool {
    g.len() == 9
}

/// The board on which nothing has been placed.
pub open spec fn empty_grid() -> Seq<Tic> {
    Seq::new(9, |i: int| Tic::Nil)
}

/// The index of the cell in column `x` of row `y`.
pub open spec fn cell_index(x: int, y: int) -> int {
    x + y * 3
}

/// Whether `x` and `y` name a cell of the board.
pub open spec fn on_board(x: int, y: int) -> bool {
    0 <= x < 3 && 0 <= y < 3
}

/// Whether the cells `a`, `b` and `c` hold the same mark.
pub open spec fn three_alike(g: Seq<Tic>, a: int, b: int, c: int) -> bool {
    g[a] == g[b] && g[c] == g[b] && g[a] != Tic::Nil
}

/// Whether row `y` holds three times the same mark.
pub open spec fn row_won(g: Seq<Tic>, y: int) -> bool {
    three_alike(g, 3 * y, 3 * y + 1, 3 * y + 2)
}

/// Whether column `x` holds three times the same mark.
pub open spec fn column_won(g: Seq<Tic>, x: int) -> bool {
    three_alike(g, x, x + 3, x + 6)
}

/// Whether one of the first `n` rows is won.
pub open spec fn rows_won(g: Seq<Tic>, n: int) -> bool {
    (0 < n && row_won(g, 0)) || (1 < n && row_won(g, 1)) || (2 < n && row_won(g, 2))
}

/// Whether one of the first `n` columns is won.
pub open spec fn columns_won(g: Seq<Tic>, n: int) -> bool {
    (0 < n && column_won(g, 0)) || (1 < n && column_won(g, 1)) || (2 < n && column_won(g, 2))
}

/// Whether one of the two diagonals holds three times the same mark.
pub open spec fn diagonal_won(g: Seq<Tic>) -> bool {
    three_alike(g, 0, 4, 8) || three_alike(g, 2, 4, 6)
}

/// Whether one of the eight lines (three rows, three columns, two
/// diagonals) holds three times the same mark.
pub open spec fn has_winner(g: Seq<Tic>) -> bool {
    rows_won(g, 3) || columns_won(g, 3) || diagonal_won(g)
}

/// The mark that the won line of `g` holds, where there is one; `Nil` on a
/// board without a winner.
pub open spec fn winning_mark(g: Seq<Tic>) -> Tic {
    if row_won(g, 0) {
        g[0]
    } else if row_won(g, 1) {
        g[3]
    } else if row_won(g, 2) {
        g[6]
    } else if column_won(g, 0) {
        g[0]
    } else if column_won(g, 1) {
        g[1]
    } else if column_won(g, 2) {
        g[2]
    } else if diagonal_won(g) {
        g[4]
    } else {
        Tic::Nil
    }
}

/// Whether a line through the cell in column `x` of row `y` holds three
/// times the same mark.
pub open spec fn completes_line(g: Seq<Tic>, x: int, y: int) -> bool {
    ||| row_won(g, y)
    ||| column_won(g, x)
    ||| (x == y && three_alike(g, 0, 4, 8))
    ||| (x + y == 2 && three_alike(g, 2, 4, 6))
}

/// What placing `what` in column `x` of row `y` does: a taken cell refuses
/// and names its mark, and the board stays as it is; an empty cell takes
/// `what`.
pub open spec fn place(g: Seq<Tic>, x: int, y: int, what: Tic) -> (Seq<Tic>, Result<(), Tic>) {
    let at = cell_index(x, y);
    if g[at] != Tic::Nil {
        (g, Err(g[at]))
    } else {
        (g.update(at, what), Ok(()))
    }
}

/// One if cell `at` of `g` holds `what`, else nothing.
pub open spec fn one_if_held(g: Seq<Tic>, at: int, what: Tic) -> nat {
    if g[at] == what {
        1
    } else {
        0
    }
}

/// How many of the nine cells of `g` hold `what`.
#[verifier::opaque]
pub open spec fn count(g: Seq<Tic>, what: Tic) -> nat {
    one_if_held(g, 0, what) + one_if_held(g, 1, what) + one_if_held(g, 2, what) + one_if_held(
        g,
        3,
        what,
    ) + one_if_held(g, 4, what) + one_if_held(g, 5, what) + one_if_held(g, 6, what) + one_if_held(
        g,
        7,
        what,
    ) + one_if_held(g, 8, what)
}

/// How many cells of `g` hold a mark.
pub open spec fn filled(g: Seq<Tic>) -> nat {
    count(g, Tic::O) + count(g, Tic::X)
}

/// One placement: the column, the row and the mark.
pub struct Placement {
    pub x: int,
    pub y: int,
    pub what: Tic,
}

/// The board that a run of placements leaves, from the empty board on.
pub open spec fn play(moves: Seq<Placement>) -> Seq<Tic>
    decreases moves.len(),
{
    if moves.len() == 0 {
        empty_grid()
    } else {
        let last = moves.last();
        place(play(moves.drop_last()), last.x, last.y, last.what).0
    }
}

impl Placement {
    /// The index of the cell that the placement names.
    pub open spec fn cell(self) -> int {
        cell_index(self.x, self.y)
    }

    /// Whether the placement puts a mark on a cell of the board.
    pub open spec fn valid(self) -> bool {
        on_board(self.x, self.y) && self.what.is_mark()
    }
}

/// Whether every placement of `moves` puts a mark on the board and no two
/// of them name the same cell.
pub open spec fn non_overlapping(moves: Seq<Placement>) -> bool {
    &&& forall|i: int| 0 <= i < moves.len() ==> (#[trigger] moves[i]).valid()
    &&& forall|i: int, j: int|
        0 <= i < j < moves.len() ==> (#[trigger] moves[i]).cell() != (#[trigger] moves[j]).cell()
}

/// A refusal changes nothing and repeats itself: on a taken cell every
/// placement returns the mark that holds the cell and leaves the board as
/// it was, however often it is tried.
pub proof fn lemma_refusal_repeats(g: Seq<Tic>, x: int, y: int, first: Tic, second: Tic)
    requires
        is_grid(g),
        on_board(x, y),
        g[cell_index(x, y)] != Tic::Nil,
    ensures
        place(g, x, y, first) == (g, Err::<(), Tic>(g[cell_index(x, y)])),
        place(place(g, x, y, first).0, x, y, second) == place(g, x, y, first),
{
}

/// The board only fills: a placement leaves every mark where it was, and
/// touches no cell but the one it names.
pub proof fn lemma_marks_stay(g: Seq<Tic>, x: int, y: int, what: Tic)
    requires
        is_grid(g),
        on_board(x, y),
    ensures
        is_grid(place(g, x, y, what).0),
        forall|i: int|
            0 <= i < 9 && (g[i] != Tic::Nil || i != cell_index(x, y)) ==> place(g, x, y, what).0[i]
                == g[i],
{
}

/// On a board without a winner, a placement on an empty cell wins exactly
/// when it completes a line through its own cell.
pub proof fn lemma_winner_iff_placement_completes_line(g: Seq<Tic>, x: int, y: int, what: Tic)
    requires
        is_grid(g),
        on_board(x, y),
        !has_winner(g),
        g[cell_index(x, y)] == Tic::Nil,
    ensures
        has_winner(place(g, x, y, what).0) <==> completes_line(place(g, x, y, what).0, x, y),
        has_winner(place(g, x, y, what).0) ==> what.is_mark() && winning_mark(
            place(g, x, y, what).0,
        ) == what,
{
}

/// A run of placements leaves a board, and a cell that none of them names
/// is still empty.
pub proof fn lemma_play_touches_named_cells(moves: Seq<Placement>)
    requires
        non_overlapping(moves),
    ensures
        is_grid(play(moves)),
        forall|at: int|
            0 <= at < 9 && (forall|i: int| 0 <= i < moves.len() ==> (#[trigger] moves[i]).cell() != at)
                ==> play(moves)[at] == Tic::Nil,
    decreases moves.len(),
{
    if moves.len() > 0 {
        let before = moves.drop_last();
        assert(forall|i: int| 0 <= i < before.len() ==> before[i] == moves[i]);
        lemma_play_touches_named_cells(before);
        assert(moves.last().valid());
        assert forall|at: int|
            0 <= at < 9 && (forall|i: int|
                0 <= i < moves.len() ==> (#[trigger] moves[i]).cell() != at) implies play(moves)[at]
            == Tic::Nil by {
            assert(moves[moves.len() - 1].cell() != at);
            assert(forall|i: int| 0 <= i < before.len() ==> (#[trigger] before[i]).cell() != at);
        }
    }
}

/// After a run of placements on distinct cells, of which none but the last
/// met a won board, the game is won exactly when the last placement
/// completes a line of three like marks.
pub proof fn lemma_winner_iff_last_completes_line(moves: Seq<Placement>)
    requires
        non_overlapping(moves),
        moves.len() > 0,
        !has_winner(play(moves.drop_last())),
    ensures
        has_winner(play(moves)) <==> completes_line(play(moves), moves.last().x, moves.last().y),
{
    let before = moves.drop_last();
    let last = moves.last();
    assert(forall|i: int| 0 <= i < before.len() ==> before[i] == moves[i]);
    lemma_play_touches_named_cells(before);
    assert(last.valid());
    assert(forall|i: int| 0 <= i < before.len() ==> (#[trigger] before[i]).cell() != last.cell()) by {
        assert(forall|i: int|
            0 <= i < before.len() ==> (#[trigger] moves[i]).cell() != moves[moves.len() - 1].cell());
    }
    lemma_winner_iff_placement_completes_line(play(before), last.x, last.y, last.what);
}

/// A won line holds three like marks, so a board on which neither mark
/// holds three cells has no winner.
pub proof fn lemma_winner_needs_three(g: Seq<Tic>)
    requires
        is_grid(g),
    ensures
        has_winner(g) ==> winning_mark(g).is_mark() && count(g, winning_mark(g)) >= 3,
        count(g, Tic::O) < 3 && count(g, Tic::X) < 3 ==> !has_winner(g),
{
    reveal(count);
}

/// Writing `what` to a cell that does not hold `mark` adds one to the count
/// of `mark` if `what` is that mark, and else leaves the count.
proof fn lemma_count_after_write(g: Seq<Tic>, at: int, what: Tic, mark: Tic)
    requires
        is_grid(g),
        0 <= at < 9,
        g[at] != mark,
    ensures
        count(g.update(at, what), mark) == count(g, mark) + if what == mark {
            1nat
        } else {
            0nat
        },
{
    reveal(count);
    let h = g.update(at, what);
    assert(one_if_held(g, at, mark) == 0);
    assert(one_if_held(h, at, mark) == if what == mark {
        1nat
    } else {
        0nat
    });
    assert forall|i: int| 0 <= i < 9 && i != at implies #[trigger] one_if_held(h, i, mark)
        == one_if_held(g, i, mark) by {}
}

/// A board with an empty cell holds fewer than nine marks.
proof fn lemma_room_left(g: Seq<Tic>, at: int)
    requires
        is_grid(g),
        0 <= at < 9,
        g[at] == Tic::Nil,
    ensures
        filled(g) < 9,
{
    reveal(count);
    assert forall|i: int| 0 <= i < 9 implies #[trigger] one_if_held(g, i, Tic::O) + one_if_held(
        g,
        i,
        Tic::X,
    ) <= 1 by {}
    assert(one_if_held(g, at, Tic::O) + one_if_held(g, at, Tic::X) == 0);
}

/// A placement that an empty cell takes adds one to the count of its mark
/// and leaves the count of the other mark; before it, fewer than nine cells
/// were filled.
pub proof fn lemma_placement_counts(g: Seq<Tic>, x: int, y: int, what: Tic, other: Tic)
    requires
        is_grid(g),
        on_board(x, y),
        g[cell_index(x, y)] == Tic::Nil,
        what.is_mark(),
        other.is_mark(),
    ensures
        count(place(g, x, y, what).0, other) == count(g, other) + if other == what {
            1nat
        } else {
            0nat
        },
        filled(place(g, x, y, what).0) == filled(g) + 1,
        filled(g) < 9,
{
    let at = cell_index(x, y);
    assert(place(g, x, y, what).0 == g.update(at, what));
    lemma_count_after_write(g, at, what, other);
    lemma_count_after_write(g, at, what, Tic::O);
    lemma_count_after_write(g, at, what, Tic::X);
    lemma_room_left(g, at);
}

/// On the empty board nothing is filled and nobody has won.
pub proof fn lemma_empty_grid()
    ensures
        is_grid(empty_grid()),
        count(empty_grid(), Tic::O) == 0,
        count(empty_grid(), Tic::X) == 0,
        filled(empty_grid()) == 0,
        !has_winner(empty_grid()),
{
    reveal(count);
}

/// The board of one game.
pub struct TicTacToe {
    grid: [Tic; 9],
}

impl View for TicTacToe {
    type V = Seq<Tic>;

    closed spec fn view(&self) -> Seq<Tic> {
        self.grid@
    }
}

impl TicTacToe {
    /// Every board has nine cells.
    pub proof fn lemma_nine_cells(&self)
        ensures
            is_grid(self@),
    {
    }

    /// A board with every cell empty.
    pub fn new() -> (board: TicTacToe)
        ensures
            board@ == empty_grid(),
    {
        let board = TicTacToe { grid: [Tic::Nil; 9] };
        assert(board@ =~= empty_grid());
        board
    }

    /// What the cell in column `x` of row `y` holds.
    pub fn cell(&self, x: usize, y: usize) -> (held: Tic)
        requires
            on_board(x as int, y as int),
        ensures
            held == self@[cell_index(x as int, y as int)],
    {
        self.grid[x + y * 3]
    }

    /// Places `what` in column `x` of row `y`. A cell that already holds a
    /// mark refuses: the result names that mark and the board is unchanged.
    pub fn set(&mut self, x: usize, y: usize, what: Tic) -> (outcome: Result<(), Tic>)
        requires
            on_board(x as int, y as int),
        ensures
            (final(self)@, outcome) == place(old(self)@, x as int, y as int, what),
    {
        let pos: usize = x + y * 3;
        if self.grid[pos] != Tic::Nil {
            Err(self.grid[pos])
        } else {
            self.grid[pos] = what;
            Ok(())
        }
    }

    /// Whether the cells at the indices `a`, `b` and `c` hold the same mark.
    pub fn same3(&self, a: usize, b: usize, c: usize) -> (alike: bool)
        requires
            a < 9,
            b < 9,
            c < 9,
        ensures
            alike == three_alike(self@, a as int, b as int, c as int),
    {
        self.grid[a] == self.grid[b] && self.grid[c] == self.grid[b] && self.grid[a] != Tic::Nil
    }

    /// Whether the game is won: whether one of the eight lines holds three
    /// times the same mark.
    pub fn digest(&self) -> (win: bool)
        ensures
            win == has_winner(self@),
    {
        let mut win = false;
        let mut y: usize = 0;
        while y < 3
            invariant
                y <= 3,
                win == rows_won(self@, y as int),
            decreases 3 - y,
        {
            let a: usize = y * 3;
            win = win || self.same3(a, a + 1, a + 2);
            y = y + 1;
        }
        let mut x: usize = 0;
        while x < 3
            invariant
                x <= 3,
                win == (rows_won(self@, 3) || columns_won(self@, x as int)),
            decreases 3 - x,
        {
            win = win || self.same3(x, x + 3, x + 6);
            x = x + 1;
        }
        win = win || self.same3(0, 4, 8) || self.same3(2, 4, 6);
        win
    }
}

} // verus!
