use tictactoe::Action;
use tictactoe::Event;
use tictactoe::Fault;
use tictactoe::MoveError;
use tictactoe::Reply;
use tictactoe::Role;
use tictactoe::Session;
use tictactoe::Status;
use tictactoe::Tic;

fn local(session: &mut Session, line: &str) -> Reply {
    session.step(&Event::Local(String::from(line)))
}

fn peer(session: &mut Session, line: &str) -> Reply {
    session.step(&Event::Peer(String::from(line)))
}

fn cells(session: &Session) -> Vec<Tic> {
    let mut all = Vec::new();
    for y in 0..3 {
        for x in 0..3 {
            all.push(session.board().cell(x, y));
        }
    }
    all
}

fn marks(session: &Session) -> usize {
    cells(session).iter().filter(|cell| **cell != Tic::Nil).count()
}

/// Plays the lines in turn, the joiner first, and hands each accepted move
/// to the other peer.
fn play(lines: &[&str]) -> (Session, Session) {
    let mut joiner = Session::new(Role::Joiner);
    let mut host = Session::new(Role::Host);
    for (n, line) in lines.iter().enumerate() {
        let (near, far) = if n % 2 == 0 { (&mut joiner, &mut host) } else { (&mut host, &mut joiner) };
        let reply = local(near, line);
        let sent = reply.send.expect("the move is taken");
        peer(far, &sent);
        assert_eq!(cells(near), cells(far));
        assert_eq!(near.turn(), far.turn());
        assert_eq!(near.status(), far.status());
    }
    (joiner, host)
}

#[test]
fn roles_play_their_marks() {
    assert_eq!(Role::Host.mark(), Tic::O);
    assert_eq!(Role::Joiner.mark(), Tic::X);
}

#[test]
fn joiner_moves_first() {
    assert!(Role::Joiner.moves_first());
    assert!(!Role::Host.moves_first());
}

#[test]
fn joiner_opens_and_host_waits() {
    let joiner = Session::new(Role::Joiner);
    let host = Session::new(Role::Host);
    assert_eq!(joiner.action(), Action::AskLocal);
    assert_eq!(host.action(), Action::AwaitPeer);
    assert_eq!(joiner.turn(), Tic::X);
    assert_eq!(host.turn(), Tic::X);
    assert_eq!(joiner.status(), Status::Running);
    assert_eq!(host.status(), Status::Running);
    assert_eq!(joiner.role(), Role::Joiner);
    assert_eq!(host.role(), Role::Host);
    assert_eq!(marks(&joiner), 0);
    assert_eq!(marks(&host), 0);
}

#[test]
fn local_move_is_placed_and_sent() {
    let mut joiner = Session::new(Role::Joiner);
    let reply = local(&mut joiner, " 1   2 \n");
    assert_eq!(reply.send, Some(String::from("1 2\n")));
    assert_eq!(reply.next, Action::AwaitPeer);
    assert_eq!(joiner.board().cell(2, 1), Tic::X);
    assert_eq!(marks(&joiner), 1);
    assert_eq!(joiner.turn(), Tic::O);
}

#[test]
fn peer_move_is_placed_and_nothing_is_sent() {
    let mut host = Session::new(Role::Host);
    let reply = peer(&mut host, "1 2\n");
    assert_eq!(reply.send, None);
    assert_eq!(reply.next, Action::AskLocal);
    assert_eq!(host.board().cell(2, 1), Tic::X);
    assert_eq!(marks(&host), 1);
    assert_eq!(host.turn(), Tic::O);
}

#[test]
fn turn_alternates_with_every_applied_move() {
    let order = ["0 0", "0 1", "0 2", "1 1", "1 0", "1 2", "2 1", "2 0", "2 2"];
    let mut joiner = Session::new(Role::Joiner);
    let mut host = Session::new(Role::Host);
    for (n, line) in order.iter().enumerate() {
        let expected = if n % 2 == 0 { Tic::X } else { Tic::O };
        assert_eq!(joiner.turn(), expected);
        assert_eq!(host.turn(), expected);
        assert_eq!(marks(&joiner), n);
        let (near, far) = if n % 2 == 0 { (&mut joiner, &mut host) } else { (&mut host, &mut joiner) };
        let reply = local(near, line);
        peer(far, &reply.send.expect("the move is taken"));
    }
    assert_eq!(joiner.turn(), Tic::O);
    assert_eq!(host.turn(), Tic::O);
}

#[test]
fn taken_cell_asks_the_local_player_again() {
    let mut joiner = Session::new(Role::Joiner);
    local(&mut joiner, "0 0");
    peer(&mut joiner, "1 1");
    let before = cells(&joiner);
    for line in ["0 0", "1 1", "0 0"] {
        let reply = local(&mut joiner, line);
        assert_eq!(reply.send, None);
        assert_eq!(reply.next, Action::AskLocal);
        assert_eq!(cells(&joiner), before);
        assert_eq!(joiner.turn(), Tic::X);
        assert_eq!(joiner.status(), Status::Running);
    }
    let reply = local(&mut joiner, "2 2");
    assert_eq!(reply.send, Some(String::from("2 2\n")));
    assert_eq!(reply.next, Action::AwaitPeer);
}

#[test]
fn taken_cell_from_the_peer_changes_nothing() {
    let mut host = Session::new(Role::Host);
    peer(&mut host, "0 0");
    local(&mut host, "1 1");
    let before = cells(&host);
    for line in ["0 0", "1 1"] {
        let reply = peer(&mut host, line);
        assert_eq!(reply.send, None);
        assert_eq!(reply.next, Action::AwaitPeer);
        assert_eq!(cells(&host), before);
        assert_eq!(host.turn(), Tic::X);
        assert_eq!(host.status(), Status::Running);
    }
}

#[test]
fn line_out_of_turn_is_ignored() {
    let mut host = Session::new(Role::Host);
    let reply = local(&mut host, "0 0");
    assert_eq!(reply.send, None);
    assert_eq!(reply.next, Action::AwaitPeer);
    assert_eq!(marks(&host), 0);
    let reply = local(&mut host, "no move");
    assert_eq!(reply.next, Action::AwaitPeer);
    assert_eq!(host.status(), Status::Running);

    let mut joiner = Session::new(Role::Joiner);
    let reply = peer(&mut joiner, "0 0");
    assert_eq!(reply.send, None);
    assert_eq!(reply.next, Action::AskLocal);
    assert_eq!(marks(&joiner), 0);
    let reply = peer(&mut joiner, "9 9");
    assert_eq!(reply.next, Action::AskLocal);
    assert_eq!(joiner.status(), Status::Running);
}

#[test]
fn malformed_local_line_ends_the_session() {
    let mut joiner = Session::new(Role::Joiner);
    let reply = local(&mut joiner, "first\n");
    assert_eq!(reply.send, None);
    assert_eq!(reply.next, Action::Abort(Fault::Local(MoveError::Malformed)));
    assert_eq!(joiner.status(), Status::Failed(Fault::Local(MoveError::Malformed)));
    assert_eq!(marks(&joiner), 0);
}

#[test]
fn local_line_off_the_board_ends_the_session() {
    let mut joiner = Session::new(Role::Joiner);
    let reply = local(&mut joiner, "0 3\n");
    assert_eq!(reply.send, None);
    assert_eq!(reply.next, Action::Abort(Fault::Local(MoveError::OutOfRange)));
    assert_eq!(marks(&joiner), 0);
}

#[test]
fn malformed_peer_line_ends_the_session() {
    let mut host = Session::new(Role::Host);
    let reply = peer(&mut host, "");
    assert_eq!(reply.send, None);
    assert_eq!(reply.next, Action::Abort(Fault::Peer(MoveError::Malformed)));
    assert_eq!(host.status(), Status::Failed(Fault::Peer(MoveError::Malformed)));
}

#[test]
fn peer_line_off_the_board_ends_the_session() {
    let mut host = Session::new(Role::Host);
    let reply = peer(&mut host, "5 5\n");
    assert_eq!(reply.send, None);
    assert_eq!(reply.next, Action::Abort(Fault::Peer(MoveError::OutOfRange)));
    assert_eq!(host.status(), Status::Failed(Fault::Peer(MoveError::OutOfRange)));
    assert_eq!(marks(&host), 0);
}

#[test]
fn ended_session_takes_no_more_lines() {
    let mut host = Session::new(Role::Host);
    peer(&mut host, "7 7");
    for reply in [peer(&mut host, "0 0"), local(&mut host, "0 0")] {
        assert_eq!(reply.send, None);
        assert_eq!(reply.next, Action::Abort(Fault::Peer(MoveError::OutOfRange)));
    }
    assert_eq!(marks(&host), 0);
    assert_eq!(host.action(), Action::Abort(Fault::Peer(MoveError::OutOfRange)));
}

#[test]
fn joiner_wins_on_both_sides() {
    let (joiner, host) = play(&["0 0", "1 0", "1 1", "2 0", "2 2"]);
    assert_eq!(joiner.status(), Status::Won(Tic::X));
    assert_eq!(host.status(), Status::Won(Tic::X));
    assert_eq!(joiner.action(), Action::Announce(Tic::X));
    assert_eq!(host.action(), Action::Announce(Tic::X));
    assert!(joiner.board().digest());
    assert!(host.board().digest());
}

#[test]
fn host_wins_on_both_sides() {
    let (joiner, host) = play(&["0 0", "1 0", "0 1", "1 1", "2 2", "1 2"]);
    assert_eq!(joiner.status(), Status::Won(Tic::O));
    assert_eq!(host.status(), Status::Won(Tic::O));
    assert_eq!(host.action(), Action::Announce(Tic::O));
    assert_eq!(joiner.action(), Action::Announce(Tic::O));
}

#[test]
fn winning_move_is_still_sent() {
    let mut joiner = Session::new(Role::Joiner);
    local(&mut joiner, "0 0");
    peer(&mut joiner, "1 0");
    local(&mut joiner, "0 1");
    peer(&mut joiner, "1 1");
    let reply = local(&mut joiner, "0 2");
    assert_eq!(reply.send, Some(String::from("0 2\n")));
    assert_eq!(reply.next, Action::Announce(Tic::X));
}

#[test]
fn won_game_takes_no_more_lines() {
    let (mut joiner, mut host) = play(&["0 0", "1 0", "1 1", "2 0", "2 2"]);
    let before = cells(&joiner);
    for reply in [
        local(&mut joiner, "0 1"),
        peer(&mut joiner, "0 1"),
        local(&mut host, "0 1"),
        peer(&mut host, "bad"),
    ] {
        assert_eq!(reply.send, None);
        assert_eq!(reply.next, Action::Announce(Tic::X));
    }
    assert_eq!(cells(&joiner), before);
    assert_eq!(cells(&host), before);
}

#[test]
fn full_board_without_a_line_goes_on() {
    let order = ["0 0", "0 1", "0 2", "1 1", "1 0", "1 2", "2 1", "2 0", "2 2"];
    let (mut joiner, mut host) = play(&order);
    assert_eq!(marks(&joiner), 9);
    assert!(!joiner.board().digest());
    assert_eq!(joiner.status(), Status::Running);
    assert_eq!(host.status(), Status::Running);
    assert_eq!(host.action(), Action::AskLocal);
    assert_eq!(joiner.action(), Action::AwaitPeer);
    for line in order {
        let reply = local(&mut host, line);
        assert_eq!(reply.send, None);
        assert_eq!(reply.next, Action::AskLocal);
        let reply = peer(&mut joiner, line);
        assert_eq!(reply.next, Action::AwaitPeer);
    }
    assert_eq!(joiner.status(), Status::Running);
}

#[test]
fn boards_agree_after_every_move() {
    let (joiner, host) = play(&["1 1", "0 0", "0 2", "2 0", "1 0", "1 2"]);
    assert_eq!(cells(&joiner), cells(&host));
    assert_eq!(
        cells(&joiner),
        vec![
            Tic::O, Tic::Nil, Tic::X,
            Tic::X, Tic::X, Tic::O,
            Tic::O, Tic::Nil, Tic::Nil,
        ]
    );
}
