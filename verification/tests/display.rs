use tictactoe::banner;
use tictactoe::prompt;
use tictactoe::Theme;
use tictactoe::Tic;
use tictactoe::TicTacToe;

fn plain() -> Theme {
    Theme { bold: String::new(), red: String::new(), green: String::new(), reset: String::new() }
}

fn tagged() -> Theme {
    Theme {
        bold: String::from("<b>"),
        red: String::from("<r>"),
        green: String::from("<g>"),
        reset: String::from("</>"),
    }
}

#[test]
fn terminal_theme_holds_the_escape_sequences() {
    let theme = Theme::terminal();
    assert_eq!(theme.bold, "\u{1b}[1m");
    assert_eq!(theme.reset, "\u{1b}[m");
    assert!(theme.red == "\u{1b}[38;5;1m" || theme.red.is_empty());
    assert!(theme.green == "\u{1b}[38;5;2m" || theme.green.is_empty());
}

#[test]
fn terminal_theme_is_what_termion_writes() {
    let theme = Theme::terminal();
    assert_eq!(theme.bold, format!("{}", termion::style::Bold));
    assert_eq!(theme.reset, format!("{}", termion::style::Reset));
    assert_eq!(theme.red, format!("{}", termion::color::Fg(termion::color::Red)));
    assert_eq!(theme.green, format!("{}", termion::color::Fg(termion::color::Green)));
}

#[test]
fn empty_board_in_plain_text() {
    let board = TicTacToe::new();
    assert_eq!(board.render(&plain()), "  0 1 2\n0 _ _ _ \n1 _ _ _ \n2 _ _ _ \n");
}

#[test]
fn board_shows_each_cell_in_its_row_and_column() {
    let mut board = TicTacToe::new();
    assert_eq!(board.set(0, 0, Tic::O), Ok(()));
    assert_eq!(board.set(2, 0, Tic::X), Ok(()));
    assert_eq!(board.set(1, 1, Tic::X), Ok(()));
    assert_eq!(board.set(0, 2, Tic::O), Ok(()));
    assert_eq!(board.render(&plain()), "  0 1 2\n0 O _ X \n1 _ X _ \n2 O _ _ \n");
}

#[test]
fn labels_are_dressed_with_the_theme() {
    let mut board = TicTacToe::new();
    assert_eq!(board.set(1, 2, Tic::X), Ok(()));
    assert_eq!(
        board.render(&tagged()),
        "<b><r>  0 1 2</>\n<b><r>0 </>_ _ _ \n<b><r>1 </>_ _ _ \n<b><r>2 </>_ X _ \n"
    );
}

#[test]
fn board_on_the_terminal() {
    let mut board = TicTacToe::new();
    assert_eq!(board.set(1, 1, Tic::O), Ok(()));
    let theme = Theme::terminal();
    let label = format!("{}{}", theme.bold, theme.red);
    let expected = format!(
        "{l}  0 1 2{r}\n{l}0 {r}_ _ _ \n{l}1 {r}_ O _ \n{l}2 {r}_ _ _ \n",
        l = label,
        r = theme.reset
    );
    let text = board.render(&theme);
    assert_eq!(text, expected);
    assert!(text.starts_with("\u{1b}[1m"));
    assert!(text.contains("\u{1b}[m"));
}

#[test]
fn prompt_names_the_mark() {
    assert_eq!(prompt(Tic::O), "(O) Enter Row then Col: ");
    assert_eq!(prompt(Tic::X), "(X) Enter Row then Col: ");
}

#[test]
fn banner_names_the_winner() {
    assert_eq!(banner(Tic::X, &plain()), "X Wins!!");
    assert_eq!(banner(Tic::O, &tagged()), "<b><g>O Wins!!");
    let theme = Theme::terminal();
    assert_eq!(banner(Tic::O, &theme), format!("{}{}O Wins!!", theme.bold, theme.green));
}
