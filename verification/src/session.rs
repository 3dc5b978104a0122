//! One peer's side of a game.
//!
//! A session owns the board and the turn. It is fed the lines that arrive,
//! from the local player and from the peer, one at a time, and answers each
//! with what is to be sent to the peer and what is to be done next. It reads
//! and sends nothing itself.
//!
//! The joiner plays `X` and moves first; the host plays `O`. A line counts
//! only when it comes from the side whose turn it is. A line that names a
//! taken cell changes nothing, and the same side is asked again. A line that
//! is no move ends the session.

use crate::board::cell_index;
use crate::board::count;
use crate::board::empty_grid;
use crate::board::filled;
use crate::board::has_winner;
use crate::board::is_grid;
use crate::board::lemma_empty_grid;
use crate::board::lemma_placement_counts;
use crate::board::lemma_winner_iff_placement_completes_line;
use crate::board::place;
use crate::board::winning_mark;
use crate::board::TicTacToe;
use crate::mark::lemma_turns_alternate;
use crate::mark::turn_after;
use crate::mark::Tic;
use crate::wire::lemma_wire_round_trip;
use crate::wire::parse_move;
use crate::wire::wire_text;
use crate::wire::Move;
use crate::wire::MoveError;
use vstd::prelude::*;

verus! {

/// Which of the two peers a process is.
#[derive(Clone, Copy, Debug, PartialEq, Eq, Structural)]
pub enum Role {
    /// The peer that waits for the connection. It plays `O` and moves
    /// second.
    Host,
    /// The peer that connects. It plays `X` and moves first.
    Joiner,
}

/// Why a session has ended without a winner.
#[derive(Clone, Copy, Debug, PartialEq, Eq, Structural)]
pub enum Fault {
    /// The local player's line was no move.
    Local(MoveError),
    /// The peer's line was no move.
    Peer(MoveError),
}

/// How far a game has come.
#[derive(Clone, Copy, Debug, PartialEq, Eq, Structural)]
pub enum Status {
    /// The game goes on.
    Running,
    /// The mark has completed a line.
    Won(Tic),
    /// A line was no move.
    Failed(Fault),
}

/// What the process is to do next.
#[derive(Clone, Copy, Debug, PartialEq, Eq, Structural)]
pub enum Action {
    /// Show the board and ask the local player for a line.
    AskLocal,
    /// Wait for a line from the peer.
    AwaitPeer,
    /// Announce the winner and stop.
    Announce(Tic),
    /// Stop on the fault.
    Abort(Fault),
}

/// A line that has arrived.
pub enum Event {
    /// A line that the local player has typed.
    Local(String),
    /// A line that the peer has sent.
    Peer(String),
}

/// The answer to an event.
pub struct Reply {
    /// The line to send to the peer before anything else is done.
    pub send: Option<String>,
    /// What to do after that.
    pub next: Action,
}

/// The mark that opens every game: the joiner's.
pub open spec fn opening_mark() -> Tic {
    Tic::X
}

impl Role {
    /// The mark that the peer plays.
    pub open spec fn spec_mark(&self) -> Tic {
        match *self {
            Role::Host => Tic::O,
            Role::Joiner => Tic::X,
        }
    }

    /// The mark that the peer plays.
    #[verifier::when_used_as_spec(spec_mark)]
    pub fn mark(&self) -> (mark: Tic)
        ensures
            mark == self.spec_mark(),
    {
        match self {
            Role::Host => Tic::O,
            Role::Joiner => Tic::X,
        }
    }

    /// Whether the peer makes the first move of a game: whether its mark
    /// opens.
    pub fn moves_first(&self) -> (first: bool)
        ensures
            first == (self.spec_mark() == opening_mark()),
            first == (*self == Role::Joiner),
    {
        match self {
            Role::Host => false,
            Role::Joiner => true,
        }
    }
}

impl Event {
    /// Whether the line comes from the local player.
    pub open spec fn is_local(&self) -> bool {
        *self is Local
    }

    /// The text of the line.
    pub open spec fn line(&self) -> Seq<char> {
        match *self {
            Event::Local(text) => text@,
            Event::Peer(text) => text@,
        }
    }
}

/// The state of a session: the role, the nine cells, the mark that is to
/// move and how far the game has come.
pub struct State {
    pub role: Role,
    pub grid: Seq<Tic>,
    pub turn: Tic,
    pub status: Status,
}

impl State {
    /// The state in which every session begins.
    pub open spec fn start(role: Role) -> State {
        State { role, grid: empty_grid(), turn: opening_mark(), status: Status::Running }
    }

    /// What holds of every state that a session reaches: the turn is the
    /// opening mark advanced once for each mark on the board, `X` has moved
    /// as often as `O` or once more, and the game is won exactly when the
    /// board holds a complete line, by the mark that moved last.
    pub open spec fn wf(self) -> bool {
        &&& is_grid(self.grid)
        &&& self.turn == turn_after(opening_mark(), filled(self.grid))
        &&& count(self.grid, Tic::X) == count(self.grid, Tic::O) + if self.turn == Tic::O {
            1nat
        } else {
            0nat
        }
        &&& match self.status {
            Status::Won(mark) => has_winner(self.grid) && winning_mark(self.grid) == mark
                && self.turn == mark.spec_next(),
            _ => !has_winner(self.grid),
        }
    }

    /// Whether a line from the local player (or, with `local` false, from
    /// the peer) counts: the game goes on and it is that side's turn.
    pub open spec fn listens(self, local: bool) -> bool {
        self.status is Running && local == (self.turn == self.role.spec_mark())
    }

    /// What is to be done next.
    pub open spec fn action(self) -> Action {
        match self.status {
            Status::Won(mark) => Action::Announce(mark),
            Status::Failed(fault) => Action::Abort(fault),
            Status::Running => if self.turn == self.role.spec_mark() {
                Action::AskLocal
            } else {
                Action::AwaitPeer
            },
        }
    }

    /// Whether the cell that `mv` names is free.
    pub open spec fn free(self, mv: Move) -> bool {
        place(self.grid, mv.col as int, mv.row as int, self.turn).1 is Ok
    }

    /// The state after the mark that is to move has been placed on the free
    /// cell that `mv` names: the turn advances, and the game is won if a
    /// line is complete.
    pub open spec fn moved(self, mv: Move) -> State {
        let grid = place(self.grid, mv.col as int, mv.row as int, self.turn).0;
        State {
            role: self.role,
            grid,
            turn: self.turn.spec_next(),
            status: if has_winner(grid) {
                Status::Won(self.turn)
            } else {
                Status::Running
            },
        }
    }

    /// The state after a line: a line that does not count, or that names a
    /// taken cell, changes nothing; a line that is no move ends the session;
    /// any other line is a move.
    pub open spec fn step(self, local: bool, line: Seq<char>) -> State {
        if !self.listens(local) {
            self
        } else {
            match parse_move(line) {
                Err(error) => State {
                    role: self.role,
                    grid: self.grid,
                    turn: self.turn,
                    status: Status::Failed(
                        if local {
                            Fault::Local(error)
                        } else {
                            Fault::Peer(error)
                        },
                    ),
                },
                Ok(mv) => if self.free(mv) {
                    self.moved(mv)
                } else {
                    self
                },
            }
        }
    }

    /// The line that goes to the peer after a line has arrived: a move of
    /// the local player that the board has taken, and nothing else.
    pub open spec fn sends(self, local: bool, line: Seq<char>) -> Option<Seq<char>> {
        if local && self.listens(local) && parse_move(line) is Ok && self.free(parse_move(line)->Ok_0) {
            Some(wire_text(parse_move(line)->Ok_0.row as int, parse_move(line)->Ok_0.col as int))
        } else {
            None
        }
    }
}

/// Whether `sent` holds the text `text`, or both hold nothing.
pub open spec fn same_text(sent: Option<String>, text: Option<Seq<char>>) -> bool {
    match (sent, text) {
        (Some(a), Some(b)) => a@ == b,
        (None, None) => true,
        _ => false,
    }
}

/// One peer's side of a game.
pub struct Session {
    role: Role,
    board: TicTacToe,
    turn: Tic,
    status: Status,
}

impl View for Session {
    type V = State;

    closed spec fn view(&self) -> State {
        State { role: self.role, grid: self.board@, turn: self.turn, status: self.status }
    }
}

impl Session {
    /// A session before the first move: the board is empty and the joiner
    /// is to move.
    pub fn new(role: Role) -> (session: Session)
        ensures
            session@ == State::start(role),
            session@.wf(),
    {
        proof {
            lemma_joiner_opens(role);
        }
        let turn = if role.moves_first() {
            role.mark()
        } else {
            role.mark().next()
        };
        Session { role, board: TicTacToe::new(), turn, status: Status::Running }
    }

    /// The role of this peer.
    pub fn role(&self) -> (role: Role)
        ensures
            role == self@.role,
    {
        self.role
    }

    /// The board as it stands.
    pub fn board(&self) -> (board: &TicTacToe)
        ensures
            board@ == self@.grid,
    {
        &self.board
    }

    /// The mark that is to move.
    pub fn turn(&self) -> (turn: Tic)
        ensures
            turn == self@.turn,
    {
        self.turn
    }

    /// How far the game has come.
    pub fn status(&self) -> (status: Status)
        ensures
            status == self@.status,
    {
        self.status
    }

    /// What the process is to do next.
    pub fn action(&self) -> (action: Action)
        ensures
            action == self@.action(),
    {
        match self.status {
            Status::Won(mark) => Action::Announce(mark),
            Status::Failed(fault) => Action::Abort(fault),
            Status::Running => if self.turn == self.role.mark() {
                Action::AskLocal
            } else {
                Action::AwaitPeer
            },
        }
    }

    /// Takes a line that has arrived and says what to send and what to do
    /// next.
    pub fn step(&mut self, event: &Event) -> (reply: Reply)
        ensures
            final(self)@ == old(self)@.step(event.is_local(), event.line()),
            same_text(reply.send, old(self)@.sends(event.is_local(), event.line())),
            reply.next == final(self)@.action(),
            old(self)@.wf() ==> final(self)@.wf(),
    {
        proof {
            if old(self)@.wf() {
                lemma_step_keeps_wf(old(self)@, event.is_local(), event.line());
            }
        }
        let (local, line) = match event {
            Event::Local(text) => (true, text),
            Event::Peer(text) => (false, text),
        };
        let mover = self.turn;
        let listens = match self.status {
            Status::Running => local == (mover == self.role.mark()),
            _ => false,
        };
        if !listens {
            return Reply { send: None, next: self.action() };
        }
        match Move::parse(line.as_str()) {
            Err(error) => {
                self.status = Status::Failed(
                    if local {
                        Fault::Local(error)
                    } else {
                        Fault::Peer(error)
                    },
                );
                Reply { send: None, next: self.action() }
            },
            Ok(mv) => match self.board.set(mv.col, mv.row, mover) {
                Err(_) => Reply { send: None, next: self.action() },
                Ok(()) => {
                    self.turn = mover.next();
                    if self.board.digest() {
                        self.status = Status::Won(mover);
                    }
                    let send = if local {
                        Some(mv.encode())
                    } else {
                        None
                    };
                    Reply { send, next: self.action() }
                },
            },
        }
    }
}

/// The first thing a peer does: the joiner asks its player for a move, the
/// host waits for the peer's.
pub proof fn lemma_joiner_opens(role: Role)
    ensures
        State::start(role).wf(),
        State::start(role).action() == if role == Role::Joiner {
            Action::AskLocal
        } else {
            Action::AwaitPeer
        },
{
    lemma_empty_grid();
}

/// Every state that a session reaches is well formed: whatever line
/// arrives, the step keeps what `wf` states.
pub proof fn lemma_step_keeps_wf(state: State, local: bool, line: Seq<char>)
    requires
        state.wf(),
    ensures
        state.step(local, line).wf(),
{
    if state.listens(local) {
        if let Ok(mv) = parse_move(line) {
            if state.free(mv) {
                lemma_move_keeps_wf(state, mv);
            }
        }
    }
}

/// A move on a free cell keeps what `wf` states.
proof fn lemma_move_keeps_wf(state: State, mv: Move)
    requires
        state.wf(),
        state.status is Running,
        mv.valid(),
        state.free(mv),
    ensures
        state.moved(mv).wf(),
        filled(state.moved(mv).grid) == filled(state.grid) + 1,
{
    let x = mv.col as int;
    let y = mv.row as int;
    lemma_turns_alternate(opening_mark(), filled(state.grid));
    lemma_turns_alternate(opening_mark(), filled(state.grid) + 1);
    lemma_placement_counts(state.grid, x, y, state.turn, Tic::X);
    lemma_placement_counts(state.grid, x, y, state.turn, Tic::O);
    lemma_winner_iff_placement_completes_line(state.grid, x, y, state.turn);
}

/// Turns alternate: in every state that a session reaches, the mark to move
/// is `X`, which opens, after an even number of applied moves and `O` after
/// an odd number; and the turn is the local player's exactly when the
/// session asks for a local line.
pub proof fn lemma_session_turns_alternate(state: State)
    requires
        state.wf(),
    ensures
        filled(state.grid) % 2 == 0 ==> state.turn == Tic::X,
        filled(state.grid) % 2 == 1 ==> state.turn == Tic::O,
        state.status is Running ==> (state.action() == Action::AskLocal <==> state.turn
            == state.role.spec_mark()),
{
    lemma_turns_alternate(opening_mark(), filled(state.grid));
}

/// One mark for each half of a round: a step either leaves the board and
/// the turn as they were, or places one mark on one empty cell and hands
/// the turn to the other mark. The mark is the local player's for a local
/// line and the other one for a line of the peer.
pub proof fn lemma_step_places_one_mark(state: State, local: bool, line: Seq<char>)
    requires
        state.wf(),
    ensures
        ({
            let after = state.step(local, line);
            ||| after.grid == state.grid && after.turn == state.turn
            ||| {
                &&& parse_move(line) matches Ok(mv)
                &&& state.listens(local)
                &&& state.turn == if local {
                    state.role.spec_mark()
                } else {
                    state.role.spec_mark().spec_next()
                }
                &&& state.grid[cell_index(mv.col as int, mv.row as int)] == Tic::Nil
                &&& after.grid == state.grid.update(
                    cell_index(mv.col as int, mv.row as int),
                    state.turn,
                )
                &&& after.turn == state.turn.spec_next()
                &&& filled(after.grid) == filled(state.grid) + 1
            }
        }),
{
    lemma_turns_alternate(opening_mark(), filled(state.grid));
    if state.listens(local) {
        if let Ok(mv) = parse_move(line) {
            if state.free(mv) {
                lemma_move_keeps_wf(state, mv);
            }
        }
    }
}

/// The two peers stay in step. When both hold the same board and turn, a
/// line of the local player either changes nothing on its side and sends
/// nothing, or it sends a line that brings the peer to the same board, the
/// same turn and the same status.
pub proof fn lemma_peers_stay_in_step(near: State, far: State, line: Seq<char>)
    requires
        near.wf(),
        near.role != far.role,
        near.grid == far.grid,
        near.turn == far.turn,
        near.status == far.status,
    ensures
        match near.sends(true, line) {
            None => near.step(true, line).grid == far.grid && near.step(true, line).turn
                == far.turn,
            Some(sent) => {
                &&& near.step(true, line).grid == far.step(false, sent).grid
                &&& near.step(true, line).turn == far.step(false, sent).turn
                &&& near.step(true, line).status == far.step(false, sent).status
            },
        },
{
    if let Some(sent) = near.sends(true, line) {
        let mv = parse_move(line)->Ok_0;
        lemma_wire_round_trip(mv.row, mv.col);
    }
}

} // verus!
