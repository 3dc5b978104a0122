//! A two-player game of noughts and crosses played between two peers.
//!
//! The crate holds the board, the text format in which moves travel between
//! the peers, the turn-taking session that each peer runs, and the text that
//! shows a board on a terminal. The functions are verified against contracts
//! stated over mathematical models of the data: a board is a sequence of
//! nine cells, a line of text a sequence of characters, a session a board
//! with a turn and a status. Only what `termion` writes for a style or a
//! colour is taken on trust.
//!
//! The crate reads and writes nothing. A program feeds a [`Session`] the
//! lines that arrive and does what the session answers.

pub mod board;
pub mod display;
pub mod mark;
pub mod session;
pub mod wire;

pub use board::TicTacToe;
pub use display::banner;
pub use display::prompt;
pub use display::Theme;
pub use mark::Tic;
pub use session::Action;
pub use session::Event;
pub use session::Fault;
pub use session::Reply;
pub use session::Role;
pub use session::Session;
pub use session::Status;
pub use wire::process_net_input;
pub use wire::read_pair;
pub use wire::Move;
pub use wire::MoveError;
