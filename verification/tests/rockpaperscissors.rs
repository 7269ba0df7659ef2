use lobby_games::player::PlayerId;
use lobby_games::rockpaperscissors::{
    rock_paper_scissors, GameState, HistoryEntry, InvalidAction, Move, Moves, PlayerAction,
};

#[test]
fn test_history() {
    let p1 = PlayerId::fresh();
    let p2 = PlayerId::fresh();
    let mut state = GameState::default();

    state = state.apply(PlayerAction::Join { player: p1 }).unwrap();
    state = state.apply(PlayerAction::Join { player: p2 }).unwrap();

    state = state
        .apply(PlayerAction::Move {
            player: p1,
            action: Move::Paper,
        })
        .unwrap();

    state = state
        .apply(PlayerAction::Move {
            player: p2,
            action: Move::Scissors,
        })
        .unwrap();

    state = state
        .apply(PlayerAction::Move {
            player: p1,
            action: Move::Paper,
        })
        .unwrap();

    state = state
        .apply(PlayerAction::Move {
            player: p2,
            action: Move::Scissors,
        })
        .unwrap();

    println!("{:#?}", state);

    match state {
        GameState::GameOver { winner, history } => {
            assert_eq!(winner, p2);
            assert_eq!(history.len(), 2);
        }
        _ => assert!(false, "game should be over"),
    }
}

fn started() -> (PlayerId, PlayerId, GameState) {
    let p1 = PlayerId::new(1);
    let p2 = PlayerId::new(2);
    let s = GameState::default();
    let s = s.apply(PlayerAction::Join { player: p1 }).unwrap();
    let s = s.apply(PlayerAction::Join { player: p2 }).unwrap();
    (p1, p2, s)
}

fn play(s: GameState, p1: PlayerId, m1: Move, p2: PlayerId, m2: Move) -> GameState {
    let s = s.apply(PlayerAction::Move { player: p1, action: m1 }).unwrap();
    s.apply(PlayerAction::Move { player: p2, action: m2 }).unwrap()
}

#[test]
fn the_cycle_decides_every_pair_of_moves() {
    let a = PlayerId::new(1);
    let b = PlayerId::new(2);
    let table = [
        (Move::Rock, Move::Rock, None),
        (Move::Rock, Move::Paper, Some(b)),
        (Move::Rock, Move::Scissors, Some(a)),
        (Move::Paper, Move::Rock, Some(a)),
        (Move::Paper, Move::Paper, None),
        (Move::Paper, Move::Scissors, Some(b)),
        (Move::Scissors, Move::Rock, Some(b)),
        (Move::Scissors, Move::Paper, Some(a)),
        (Move::Scissors, Move::Scissors, None),
    ];
    for (m1, m2, winner) in table {
        assert_eq!(rock_paper_scissors(&a, &m1, &b, &m2), winner);
    }
}

#[test]
fn first_join_waits_and_second_starts_round_zero() {
    let p1 = PlayerId::new(1);
    let p2 = PlayerId::new(2);
    let s = GameState::default().apply(PlayerAction::Join { player: p1 }).unwrap();
    match &s {
        GameState::WaitingForPlayers { players } => assert_eq!(players, &vec![p1]),
        _ => panic!("one player should wait"),
    }
    match s.apply(PlayerAction::Join { player: p2 }).unwrap() {
        GameState::WaitingForInput { players, round, input, history } => {
            assert_eq!(players, vec![p1, p2]);
            assert_eq!(round, 0);
            assert_eq!(input, None);
            assert!(history.is_empty());
        }
        _ => panic!("game should have started"),
    }
}

#[test]
fn joining_a_round_game_twice_is_refused() {
    let p1 = PlayerId::new(1);
    let s = GameState::default().apply(PlayerAction::Join { player: p1 }).unwrap();
    let r = s.apply(PlayerAction::Join { player: p1 });
    assert!(matches!(r, Err(InvalidAction::CantJoinTwice)));
}

#[test]
fn showing_a_move_before_the_game_starts_is_refused() {
    let r = GameState::default()
        .apply(PlayerAction::Move { player: PlayerId::new(1), action: Move::Rock });
    assert!(matches!(r, Err(InvalidAction::StillWaitingForPlayers)));
}

#[test]
fn joining_a_running_game_is_refused() {
    let (_p1, _p2, s) = started();
    let r = s.apply(PlayerAction::Join { player: PlayerId::new(3) });
    assert!(matches!(r, Err(InvalidAction::GameAlreadyInPlay)));
}

#[test]
fn a_stranger_cannot_move() {
    let (_p1, _p2, s) = started();
    let r = s.apply(PlayerAction::Move { player: PlayerId::new(3), action: Move::Rock });
    assert!(matches!(r, Err(InvalidAction::InvalidPlayer)));
}

#[test]
fn first_move_of_a_round_is_kept_pending() {
    let (p1, p2, s) = started();
    match s.apply(PlayerAction::Move { player: p2, action: Move::Rock }).unwrap() {
        GameState::WaitingForInput { players, round, input, history } => {
            assert_eq!(players, vec![p1, p2]);
            assert_eq!(round, 0);
            assert_eq!(input, Some((p2, Move::Rock)));
            assert!(history.is_empty());
        }
        _ => panic!("game should go on"),
    }
}

#[test]
fn repeated_move_of_the_pending_player_changes_nothing() {
    let (p1, _p2, s) = started();
    let s = s.apply(PlayerAction::Move { player: p1, action: Move::Rock }).unwrap();
    let s = s.apply(PlayerAction::Move { player: p1, action: Move::Paper }).unwrap();
    match s {
        GameState::WaitingForInput { round, input, history, .. } => {
            assert_eq!(round, 0);
            assert_eq!(input, Some((p1, Move::Rock)));
            assert!(history.is_empty());
        }
        _ => panic!("game should go on"),
    }
}

#[test]
fn a_round_is_recorded_with_its_moves_and_winner() {
    let (p1, p2, s) = started();
    match play(s, p1, Move::Rock, p2, Move::Scissors) {
        GameState::WaitingForInput { round, input, history, .. } => {
            assert_eq!(round, 1);
            assert_eq!(input, None);
            assert_eq!(history.len(), 1);
            assert_eq!(history[0].winner, Some(p1));
            assert_eq!(history[0].moves.get_by_left(&p1), Some(Move::Rock));
            assert_eq!(history[0].moves.get_by_left(&p2), Some(Move::Scissors));
            assert_eq!(history[0].moves.get_by_right(&Move::Rock), Some(p1));
            assert_eq!(history[0].moves.get_by_right(&Move::Scissors), Some(p2));
            assert_eq!(history[0].moves.get_by_right(&Move::Paper), None);
        }
        _ => panic!("game should go on"),
    }
}

#[test]
fn a_tied_round_counts_for_nobody() {
    let (p1, p2, s) = started();
    let s = play(s, p1, Move::Rock, p2, Move::Rock);
    let s = play(s, p2, Move::Paper, p1, Move::Paper);
    match &s {
        GameState::WaitingForInput { round, history, .. } => {
            assert_eq!(*round, 2);
            assert_eq!(history.len(), 2);
            assert_eq!(history[0].winner, None);
            assert_eq!(history[1].winner, None);
            // Two equal moves cannot both stand in a two-way map: the later one stays.
            assert_eq!(history[0].moves.get_by_right(&Move::Rock), Some(p2));
            assert_eq!(history[0].moves.get_by_left(&p1), None);
            assert_eq!(s.score(p1, history), 0);
            assert_eq!(s.score(p2, history), 0);
        }
        _ => panic!("game should go on"),
    }
}

#[test]
fn the_game_ends_with_the_second_win() {
    let (p1, p2, s) = started();
    let s = play(s, p1, Move::Rock, p2, Move::Scissors);
    let s = play(s, p1, Move::Rock, p2, Move::Paper);
    let s = play(s, p2, Move::Rock, p1, Move::Rock);
    match &s {
        GameState::WaitingForInput { round, history, .. } => {
            assert_eq!(*round, 3);
            assert_eq!(s.score(p1, history), 1);
            assert_eq!(s.score(p2, history), 1);
        }
        _ => panic!("game should go on"),
    }
    let s = play(s, p2, Move::Scissors, p1, Move::Rock);
    match &s {
        GameState::GameOver { winner, history } => {
            assert_eq!(*winner, p1);
            assert_eq!(history.len(), 4);
            assert_eq!(s.score(p1, history), 2);
            assert_eq!(s.score(p2, history), 1);
        }
        _ => panic!("game should be over"),
    }
}

#[test]
fn finished_round_game_takes_every_action_unchanged() {
    let (p1, p2, s) = started();
    let s = play(s, p1, Move::Paper, p2, Move::Scissors);
    let s = play(s, p1, Move::Paper, p2, Move::Scissors);
    for action in [
        PlayerAction::Join { player: PlayerId::new(9) },
        PlayerAction::Move { player: p1, action: Move::Rock },
        PlayerAction::Move { player: PlayerId::new(9), action: Move::Rock },
    ] {
        match s.apply(action).unwrap() {
            GameState::GameOver { winner, history } => {
                assert_eq!(winner, p2);
                assert_eq!(history.len(), 2);
                assert_eq!(history[1].winner, Some(p2));
            }
            _ => panic!("state should not change"),
        }
    }
}

#[test]
fn nothing_is_scored_while_players_are_awaited() {
    let p1 = PlayerId::new(1);
    let mut moves = Moves::new();
    moves.insert(p1, Move::Rock);
    let history = vec![
        HistoryEntry { moves: moves.clone(), winner: Some(p1) },
        HistoryEntry { moves, winner: Some(p1) },
    ];
    assert_eq!(GameState::default().score(p1, &history), 0);
    let over = GameState::GameOver { winner: p1, history: history.clone() };
    assert_eq!(over.score(p1, &history), 2);
    assert_eq!(over.score(PlayerId::new(2), &history), 0);
}

#[test]
fn a_copy_is_the_same_session() {
    let (p1, p2, s) = started();
    let s = play(s, p1, Move::Paper, p2, Move::Rock);
    let s = s.apply(PlayerAction::Move { player: p2, action: Move::Scissors }).unwrap();
    match s.clone() {
        GameState::WaitingForInput { players, round, input, history } => {
            assert_eq!(players, vec![p1, p2]);
            assert_eq!(round, 1);
            assert_eq!(input, Some((p2, Move::Scissors)));
            assert_eq!(history.len(), 1);
            assert_eq!(history[0].winner, Some(p1));
            assert_eq!(history[0].moves.get_by_left(&p2), Some(Move::Rock));
        }
        _ => panic!("copy should be a running game"),
    }
}

#[test]
fn moves_written_out_and_read_back_are_the_same() {
    let p1 = PlayerId::new(1);
    let p2 = PlayerId::new(2);
    let p3 = PlayerId::new(3);
    assert_eq!(Moves::new().pairs(), vec![]);
    let mut moves = Moves::new();
    moves.insert(p1, Move::Scissors);
    moves.insert(p2, Move::Rock);
    moves.insert(p3, Move::Paper);
    assert_eq!(moves.pairs(), vec![(p2, Move::Rock), (p3, Move::Paper), (p1, Move::Scissors)]);
    let back = Moves::from_pairs(&moves.pairs());
    assert_eq!(back.pairs(), moves.pairs());
    for player in [p1, p2, p3, PlayerId::new(4)] {
        assert_eq!(back.get_by_left(&player), moves.get_by_left(&player));
    }
    for action in [Move::Rock, Move::Paper, Move::Scissors] {
        assert_eq!(back.get_by_right(&action), moves.get_by_right(&action));
    }
}

#[test]
fn finished_game_written_out_and_read_back_is_the_same() {
    let (p1, p2, s) = started();
    let s = play(s, p1, Move::Paper, p2, Move::Scissors);
    let s = play(s, p2, Move::Rock, p1, Move::Rock);
    let s = play(s, p1, Move::Paper, p2, Move::Scissors);
    let (winner, history) = match s {
        GameState::GameOver { winner, history } => (winner, history),
        _ => panic!("game should be over"),
    };
    let written: Vec<(Vec<(PlayerId, Move)>, Option<PlayerId>)> =
        history.iter().map(|entry| (entry.moves.pairs(), entry.winner)).collect();
    assert_eq!(
        written,
        vec![
            (vec![(p1, Move::Paper), (p2, Move::Scissors)], Some(p2)),
            (vec![(p1, Move::Rock)], None),
            (vec![(p1, Move::Paper), (p2, Move::Scissors)], Some(p2)),
        ]
    );
    let read: Vec<HistoryEntry> = written
        .iter()
        .map(|(pairs, winner)| HistoryEntry { moves: Moves::from_pairs(pairs), winner: *winner })
        .collect();
    let back = GameState::GameOver { winner, history: read };
    match &back {
        GameState::GameOver { winner, history } => {
            assert_eq!(*winner, p2);
            assert_eq!(history.len(), 3);
            for (entry, (pairs, round_winner)) in history.iter().zip(&written) {
                assert_eq!(&entry.moves.pairs(), pairs);
                assert_eq!(&entry.winner, round_winner);
            }
            assert_eq!(back.score(p2, history), 2);
            assert_eq!(back.score(p1, history), 0);
        }
        _ => panic!("game should be over"),
    }
}

#[test]
fn a_session_is_playable_when_its_round_counts_the_history() {
    assert!(GameState::default().is_playable());
    let (p1, p2, s) = started();
    assert!(s.is_playable());
    let s = play(s, p1, Move::Rock, p2, Move::Rock);
    assert!(s.is_playable());
    assert!(GameState::GameOver { winner: p1, history: vec![] }.is_playable());
    let off = GameState::WaitingForInput { players: vec![p1, p2], round: 3, input: None, history: vec![] };
    assert!(!off.is_playable());
}
