//! The text that shows a game on a terminal.
//!
//! The escape sequences for bold and coloured text come from `termion`, and
//! what it writes is taken on trust. The functions that lay the text out
//! take the sequences as a [`Theme`] and are verified for every theme.

use crate::board::TicTacToe;
use crate::mark::Tic;
use crate::wire::digit_glyph;
use crate::wire::digit_text;
use vstd::prelude::*;

verus! {

/// The sequence that switches bold text on.
pub open spec fn bold_code() -> Seq<char> {
    "\x1b[1m"@
}

/// The sequence that switches every style and colour off.
pub open spec fn reset_code() -> Seq<char> {
    "\x1b[m"@
}

/// The sequence that makes the text red.
pub open spec fn red_code() -> Seq<char> {
    "\x1b[38;5;1m"@
}

/// The sequence that makes the text green.
pub open spec fn green_code() -> Seq<char> {
    "\x1b[38;5;2m"@
}

/// The escape sequences that the text of a game is dressed with.
pub struct Theme {
    /// Switches bold text on.
    pub bold: String,
    /// Colours the labels of the board.
    pub red: String,
    /// Colours the announcement of a winner.
    pub green: String,
    /// Switches styles and colours off.
    pub reset: String,
}

/// What `termion::style::Bold` writes through `Display`: the sequence
/// `ESC [ 1 m`, on every call.
#[verifier::external_body]
fn bold() -> (code: String)
    ensures
        code@ == bold_code(),
{
    format!("{}", termion::style::Bold)
}

/// What `termion::style::Reset` writes through `Display`: the sequence
/// `ESC [ m`, on every call.
#[verifier::external_body]
fn reset() -> (code: String)
    ensures
        code@ == reset_code(),
{
    format!("{}", termion::style::Reset)
}

/// What `termion::color::Fg(termion::color::Red)` writes through `Display`:
/// the sequence `ESC [ 38;5;1 m`, or nothing at all where the variable
/// `NO_COLOR` has switched colours off.
#[verifier::external_body]
fn red() -> (code: String)
    ensures
        code@ == red_code() || code@ == Seq::<char>::empty(),
{
    format!("{}", termion::color::Fg(termion::color::Red))
}

/// What `termion::color::Fg(termion::color::Green)` writes through
/// `Display`: the sequence `ESC [ 38;5;2 m`, or nothing at all where the
/// variable `NO_COLOR` has switched colours off.
#[verifier::external_body]
fn green() -> (code: String)
    ensures
        code@ == green_code() || code@ == Seq::<char>::empty(),
{
    format!("{}", termion::color::Fg(termion::color::Green))
}

impl Theme {
    /// Whether the theme holds what the terminal library hands out: the
    /// two styles always, and each colour either as its sequence or, with
    /// colours switched off, as nothing.
    pub open spec fn of_terminal(&self) -> bool {
        &&& self.bold@ == bold_code()
        &&& self.reset@ == reset_code()
        &&& (self.red@ == red_code() || self.red@ == Seq::<char>::empty())
        &&& (self.green@ == green_code() || self.green@ == Seq::<char>::empty())
    }

    /// The theme of the terminal that the process runs on.
    pub fn terminal() -> (theme: Theme)
        ensures
            theme.of_terminal(),
    {
        Theme { bold: bold(), red: red(), green: green(), reset: reset() }
    }
}

/// The first line of a board: the numbers of the columns, bold and red.
pub open spec fn header_text(theme: &Theme) -> Seq<char> {
    theme.bold@ + theme.red@ + "  0 1 2"@ + theme.reset@ + seq!['\n']
}

/// The text of a cell: its glyph and a space.
pub open spec fn cell_text(g: Seq<Tic>, at: int) -> Seq<char> {
    g[at].glyph() + seq![' ']
}

/// The text of the first `n` cells of row `y`.
pub open spec fn cells_text(g: Seq<Tic>, y: int, n: int) -> Seq<char>
    decreases n,
{
    if n <= 0 {
        Seq::empty()
    } else {
        cells_text(g, y, n - 1) + cell_text(g, 3 * y + n - 1)
    }
}

/// The label of row `y`: its number and a space, bold and red.
pub open spec fn row_label_text(theme: &Theme, y: int) -> Seq<char> {
    theme.bold@ + theme.red@ + seq![digit_glyph(y), ' '] + theme.reset@
}

/// The line of row `y`: its label, then its three cells.
pub open spec fn row_text(g: Seq<Tic>, theme: &Theme, y: int) -> Seq<char> {
    row_label_text(theme, y) + cells_text(g, y, 3) + seq!['\n']
}

/// The header and the first `n` rows of a board.
pub open spec fn rows_text(g: Seq<Tic>, theme: &Theme, n: int) -> Seq<char>
    decreases n,
{
    if n <= 0 {
        header_text(theme)
    } else {
        rows_text(g, theme, n - 1) + row_text(g, theme, n - 1)
    }
}

/// The four lines that show a board: the header and the three rows.
pub open spec fn board_text(g: Seq<Tic>, theme: &Theme) -> Seq<char> {
    rows_text(g, theme, 3)
}

/// The line that asks the player of `mark` for a move.
pub open spec fn prompt_text(mark: Tic) -> Seq<char> {
    seq!['('] + mark.glyph() + ") Enter Row then Col: "@
}

/// The line that announces `winner`, bold and green.
pub open spec fn banner_text(winner: Tic, theme: &Theme) -> Seq<char> {
    theme.bold@ + theme.green@ + winner.glyph() + " Wins!!"@
}

impl TicTacToe {
    /// The text that shows the board: a line with the numbers of the
    /// columns, then one line for each row.
    pub fn render(&self, theme: &Theme) -> (text: String)
        ensures
            text@ == board_text(self@, theme),
    {
        proof {
            reveal_strlit("\n");
        }
        let mut text = String::new();
        text.append(theme.bold.as_str());
        text.append(theme.red.as_str());
        text.append("  0 1 2");
        text.append(theme.reset.as_str());
        text.append("\n");
        assert(text@ =~= header_text(theme));
        let mut y: usize = 0;
        while y < 3
            invariant
                y <= 3,
                text@ == rows_text(self@, theme, y as int),
            decreases 3 - y,
        {
            proof {
                reveal_strlit(" ");
                reveal_strlit("\n");
            }
            let ghost above = text@;
            text.append(theme.bold.as_str());
            text.append(theme.red.as_str());
            text.append(digit_text(y));
            text.append(" ");
            text.append(theme.reset.as_str());
            assert(text@ =~= above + row_label_text(theme, y as int));
            let mut x: usize = 0;
            while x < 3
                invariant
                    x <= 3,
                    y < 3,
                    text@ == above + row_label_text(theme, y as int) + cells_text(
                        self@,
                        y as int,
                        x as int,
                    ),
                decreases 3 - x,
            {
                proof {
                    reveal_strlit(" ");
                }
                let ghost left = text@;
                text.append(self.cell(x, y).symbol());
                text.append(" ");
                assert(text@ =~= left + cell_text(self@, 3 * y + x));
                assert(text@ =~= above + row_label_text(theme, y as int) + cells_text(
                    self@,
                    y as int,
                    x + 1,
                ));
                x = x + 1;
            }
            text.append("\n");
            assert(text@ =~= above + row_text(self@, theme, y as int));
            y = y + 1;
        }
        text
    }
}

/// The line that asks the player of `mark` for a move.
pub fn prompt(mark: Tic) -> (text: String)
    ensures
        text@ == prompt_text(mark),
{
    proof {
        reveal_strlit("(");
    }
    let mut text = String::new();
    text.append("(");
    text.append(mark.symbol());
    text.append(") Enter Row then Col: ");
    assert(text@ =~= prompt_text(mark));
    text
}

/// The line that announces `winner`.
pub fn banner(winner: Tic, theme: &Theme) -> (text: String)
    ensures
        text@ == banner_text(winner, theme),
{
    let mut text = String::new();
    text.append(theme.bold.as_str());
    text.append(theme.green.as_str());
    text.append(winner.symbol());
    text.append(" Wins!!");
    assert(text@ =~= banner_text(winner, theme));
    text
}

} // verus!
