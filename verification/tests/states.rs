use lobby_games::player::PlayerId;
use lobby_games::rockpaperscissors::{self, Move};
use lobby_games::states::{
    Connect, CreateGame, GameBrowser, Highlight, Key, MainMenu, Reaction, RockPaperScissors, TicTacToe,
};
use lobby_games::tictactoe::{self, BoardCell};
use lobby_games::{Game, GameType, Lobby};

fn type_text(text: &str) -> Vec<Key> {
    text.chars().map(Key::Char).collect()
}

fn lobby(name: &str, game_type: GameType) -> Lobby {
    Lobby { name: String::from(name), players: 0, max_players: 2, game_type, game: Game::from(game_type) }
}

#[test]
fn connect_starts_empty() {
    let screen = Connect::new();
    assert_eq!(screen.address, "");
    assert_eq!(screen.input, "");
    assert!(screen.messages.is_empty());
}

#[test]
fn connect_types_erases_and_records() {
    let mut screen = Connect::new();
    assert!(matches!(screen.on_event(Key::Backspace), Reaction::Stay));
    assert_eq!(screen.input, "");
    for key in type_text("10.0.0.17") {
        assert!(matches!(screen.on_event(key), Reaction::Stay));
    }
    assert_eq!(screen.input, "10.0.0.17");
    screen.on_event(Key::Backspace);
    assert_eq!(screen.input, "10.0.0.1");
    screen.on_event(Key::Up);
    screen.on_event(Key::Other);
    assert_eq!(screen.input, "10.0.0.1");
    screen.on_event(Key::Char('\n'));
    assert_eq!(screen.input, "");
    assert_eq!(screen.messages, vec![String::from("10.0.0.1")]);
    screen.on_event(Key::Char('\n'));
    assert_eq!(screen.messages, vec![String::from("10.0.0.1"), String::new()]);
    assert_eq!(screen.address, "");
}

#[test]
fn main_menu_has_two_entries() {
    let menu = MainMenu::new("localhost:8000");
    assert_eq!(menu.selected, 0);
    assert_eq!(menu.items, vec![String::from("Create a game"), String::from("Join a game")]);
    assert_eq!(menu.address, "localhost:8000");
}

#[test]
fn main_menu_selection_goes_round() {
    let mut menu = MainMenu::new("localhost:8000");
    menu.on_event(Key::Down);
    assert_eq!(menu.selected, 1);
    menu.on_event(Key::Down);
    assert_eq!(menu.selected, 0);
    menu.on_event(Key::Up);
    assert_eq!(menu.selected, 1);
    menu.on_event(Key::Up);
    assert_eq!(menu.selected, 0);
    menu.on_event(Key::Left);
    menu.on_event(Key::Char('x'));
    assert_eq!(menu.selected, 0);
}

#[test]
fn main_menu_opens_the_selected_screen() {
    let mut menu = MainMenu::new("localhost:8000");
    assert!(matches!(menu.on_event(Key::Char('\n')), Reaction::OpenCreateGame));
    menu.on_event(Key::Down);
    assert!(matches!(menu.on_event(Key::Char('\n')), Reaction::OpenGameBrowser));
    assert!(matches!(menu.on_event(Key::Char('a')), Reaction::Stay));
    menu.items.push(String::from("Quit"));
    menu.on_event(Key::Down);
    assert_eq!(menu.selected, 2);
    assert!(matches!(menu.on_event(Key::Char('\n')), Reaction::Stay));
}

#[test]
fn create_game_starts_on_the_name() {
    let screen = CreateGame::new();
    assert_eq!(screen.lobby_name, "");
    assert_eq!(screen.game_type, 0);
    assert_eq!(screen.selected, 0);
}

#[test]
fn create_game_rows_and_kinds_go_round() {
    let mut screen = CreateGame::new();
    screen.on_event(Key::Up);
    assert_eq!(screen.selected, 2);
    screen.on_event(Key::Down);
    assert_eq!(screen.selected, 0);
    // Left and right count only on the row of the kind of game.
    screen.on_event(Key::Right);
    assert_eq!(screen.game_type, 0);
    screen.on_event(Key::Down);
    assert_eq!(screen.selected, 1);
    screen.on_event(Key::Right);
    assert_eq!(screen.game_type, 1);
    screen.on_event(Key::Right);
    assert_eq!(screen.game_type, 0);
    screen.on_event(Key::Left);
    assert_eq!(screen.game_type, 1);
    screen.on_event(Key::Left);
    assert_eq!(screen.game_type, 0);
    screen.on_event(Key::Down);
    assert_eq!(screen.selected, 2);
    screen.on_event(Key::Down);
    assert_eq!(screen.selected, 0);
}

#[test]
fn create_game_types_the_name_and_asks_for_the_lobby() {
    let mut screen = CreateGame::new();
    for key in type_text("denn") {
        screen.on_event(key);
    }
    screen.on_event(Key::Backspace);
    assert_eq!(screen.lobby_name, "den");
    // The return key does nothing on the row of the name.
    assert!(matches!(screen.on_event(Key::Char('\n')), Reaction::Stay));
    assert_eq!(screen.lobby_name, "den");
    screen.on_event(Key::Down);
    // Typing does nothing on the row of the kind of game.
    screen.on_event(Key::Char('x'));
    screen.on_event(Key::Backspace);
    assert_eq!(screen.lobby_name, "den");
    match screen.on_event(Key::Char('\n')) {
        Reaction::CreateAndJoin { name, game } => {
            assert_eq!(name, "den");
            assert_eq!(game, GameType::TicTacToe);
        }
        _ => panic!("the lobby should be asked for"),
    }
    screen.on_event(Key::Down);
    assert!(matches!(screen.on_event(Key::Char('\n')), Reaction::Stay));
}

#[test]
fn game_browser_starts_empty() {
    let mut browser = GameBrowser::new("localhost:8000");
    assert!(browser.items.is_empty());
    assert_eq!(browser.selected, 0);
    assert_eq!(browser.server_address, "localhost:8000");
    assert!(matches!(browser.on_event(Key::Char('\n')), Reaction::Stay));
    assert!(matches!(browser.on_event(Key::Char('a')), Reaction::Stay));
    assert_eq!(browser.selected, 0);
}

#[test]
fn game_browser_shows_selects_and_joins() {
    let mut browser = GameBrowser::new("localhost:8000");
    browser.on_enter(vec![
        lobby("a", GameType::TicTacToe),
        lobby("b", GameType::RockPaperScissors),
        lobby("c", GameType::TicTacToe),
    ]);
    assert_eq!(browser.items.len(), 3);
    assert_eq!(browser.selected, 0);
    browser.on_event(Key::Up);
    assert_eq!(browser.selected, 2);
    browser.on_event(Key::Down);
    assert_eq!(browser.selected, 0);
    browser.on_event(Key::Down);
    assert_eq!(browser.selected, 1);
    match browser.on_event(Key::Char('\n')) {
        Reaction::Join { lobby } => assert_eq!(lobby, "b"),
        _ => panic!("the lobby should be joined"),
    }
    assert_eq!(browser.selected, 1);
    browser.on_enter(vec![lobby("z", GameType::TicTacToe), lobby("y", GameType::TicTacToe)]);
    assert_eq!(browser.items[0].name, "z");
    assert_eq!(browser.selected, 1);
    browser.on_event(Key::Down);
    assert_eq!(browser.selected, 0);
}

#[test]
fn tictactoe_screen_starts_waiting() {
    let player = PlayerId::new(1);
    let screen = TicTacToe::new(player, "den");
    assert_eq!(screen.board, [[None; 3]; 3]);
    assert_eq!(screen.player_token, BoardCell::X);
    assert_eq!(screen.selection, (0, 0));
    assert_eq!(screen.player, player);
    assert_eq!(screen.lobby, "den");
    assert_eq!(screen.status, "waiting");
    assert!(matches!(&screen.state, tictactoe::GameState::WaitingForPlayers { players } if players.is_empty()));
}

#[test]
fn tictactoe_screen_follows_the_session() {
    let me = PlayerId::new(1);
    let other = PlayerId::new(2);
    let mut screen = TicTacToe::new(me, "den");
    screen.update();
    assert_eq!(screen.status, "Waiting for another player");

    let mut tokens = tictactoe::Tokens::new();
    tokens.insert(other, BoardCell::X);
    tokens.insert(me, BoardCell::Circle);
    let board = [[Some(BoardCell::X), None, None], [None; 3], [None; 3]];
    screen.state = tictactoe::GameState::WaitingForInput {
        active_player: me,
        waiting: other,
        tokens: tokens.clone(),
        board,
    };
    screen.update();
    assert_eq!(screen.status, "It's your turn");
    assert_eq!(screen.board, board);
    assert_eq!(screen.player_token, BoardCell::Circle);

    screen.state =
        tictactoe::GameState::WaitingForInput { active_player: other, waiting: me, tokens, board };
    screen.update();
    assert_eq!(screen.status, "Waiting for the other play to make their move.");

    let full = [[Some(BoardCell::X); 3], [Some(BoardCell::Circle), Some(BoardCell::Circle), None], [None; 3]];
    screen.state = tictactoe::GameState::GameOver { winner: Some(other), board: full };
    screen.update();
    assert_eq!(screen.status, "The game is over, you've lost.");
    assert_eq!(screen.board, full);
    assert_eq!(screen.player_token, BoardCell::Circle);
    screen.state = tictactoe::GameState::GameOver { winner: Some(me), board: full };
    screen.update();
    assert_eq!(screen.status, "The game is over, you've won!");
    screen.state = tictactoe::GameState::GameOver { winner: None, board: full };
    screen.update();
    assert_eq!(screen.status, "The game is over, it was a tie.");
}

#[test]
fn tictactoe_selection_goes_round_the_board() {
    let mut screen = TicTacToe::new(PlayerId::new(1), "den");
    screen.on_event(Key::Up);
    assert_eq!(screen.selection, (0, 1));
    screen.on_event(Key::Up);
    screen.on_event(Key::Up);
    assert_eq!(screen.selection, (0, 0));
    screen.on_event(Key::Down);
    assert_eq!(screen.selection, (0, 2));
    screen.on_event(Key::Left);
    assert_eq!(screen.selection, (2, 2));
    screen.on_event(Key::Right);
    assert_eq!(screen.selection, (0, 2));
    screen.on_event(Key::Right);
    assert_eq!(screen.selection, (1, 2));
    assert!(matches!(screen.on_event(Key::Char('x')), Reaction::Stay));
    match screen.on_event(Key::Char('\n')) {
        Reaction::PlaceToken { position } => assert_eq!(position, (1, 2)),
        _ => panic!("the token should be sent"),
    }
    assert_eq!(screen.selection, (1, 2));
}

#[test]
fn rockpaperscissors_screen_starts_empty() {
    let player = PlayerId::new(1);
    let screen = RockPaperScissors::new(player, "den");
    assert_eq!(screen.address, "");
    assert_eq!(screen.input, "");
    assert!(screen.messages.is_empty());
    assert_eq!(screen.player, player);
    assert_eq!(screen.lobby, "den");
    assert_eq!(screen.status, "");
    assert_eq!(screen.round, 0);
    assert_eq!(screen.move_selection, 0);
    assert!(screen.history.is_empty());
}

#[test]
fn rockpaperscissors_screen_follows_the_session() {
    let me = PlayerId::new(1);
    let other = PlayerId::new(2);
    let mut screen = RockPaperScissors::new(me, "den");
    screen.update();
    assert_eq!(screen.status, "Waiting for another player before the game will begin.");

    let mut moves = rockpaperscissors::Moves::new();
    moves.insert(me, Move::Rock);
    moves.insert(other, Move::Paper);
    let entry = rockpaperscissors::HistoryEntry { moves, winner: Some(other) };
    screen.state = rockpaperscissors::GameState::WaitingForInput {
        players: vec![me, other],
        round: 1,
        input: None,
        history: vec![entry.clone()],
    };
    screen.update();
    assert_eq!(screen.status, "Waiting for input");
    assert_eq!(screen.round, 1);
    assert_eq!(screen.history.len(), 1);
    assert_eq!(screen.history[0].winner, Some(other));
    assert_eq!(screen.history[0].moves.get_by_left(&me), Some(Move::Rock));

    screen.state =
        rockpaperscissors::GameState::GameOver { winner: other, history: vec![entry.clone(), entry.clone()] };
    screen.update();
    assert_eq!(screen.status, "The game is over, you've lost.");
    assert!(screen.history.is_empty());
    assert_eq!(screen.round, 1);
    screen.state = rockpaperscissors::GameState::GameOver { winner: me, history: vec![entry] };
    screen.update();
    assert_eq!(screen.status, "The game is over, you've won!");
}

#[test]
fn rockpaperscissors_selection_goes_round_the_moves() {
    let mut screen = RockPaperScissors::new(PlayerId::new(1), "den");
    let mut shown = vec![];
    for _ in 0..4 {
        match screen.on_event(Key::Char('\n')) {
            Reaction::Play { action } => shown.push(action),
            _ => panic!("the move should be sent"),
        }
        screen.on_event(Key::Right);
    }
    assert_eq!(shown, vec![Move::Rock, Move::Paper, Move::Scissors, Move::Rock]);
    assert_eq!(screen.move_selection, 1);
    screen.on_event(Key::Left);
    screen.on_event(Key::Left);
    assert_eq!(screen.move_selection, 2);
    assert!(matches!(screen.on_event(Key::Up), Reaction::Stay));
    assert_eq!(screen.move_selection, 2);
}

#[test]
fn tictactoe_highlight_tells_the_cells_apart() {
    let mut screen = TicTacToe::new(PlayerId::new(1), "den");
    screen.player_token = BoardCell::Circle;
    screen.board = [[None, Some(BoardCell::Circle), Some(BoardCell::X)], [None; 3], [None; 3]];
    assert_eq!(screen.highlight(), Highlight::Free);
    screen.selection = (0, 1);
    assert_eq!(screen.highlight(), Highlight::Own);
    screen.selection = (0, 2);
    assert_eq!(screen.highlight(), Highlight::Taken);
    screen.selection = (2, 2);
    assert_eq!(screen.highlight(), Highlight::Free);
}

#[test]
fn rockpaperscissors_round_results_are_told() {
    let me = PlayerId::new(1);
    let other = PlayerId::new(2);
    let screen = RockPaperScissors::new(me, "den");
    let entry = |winner| rockpaperscissors::HistoryEntry { moves: rockpaperscissors::Moves::new(), winner };
    assert_eq!(screen.round_result(&entry(Some(me))), "You won that round!");
    assert_eq!(screen.round_result(&entry(Some(other))), "You lost that round.");
    assert_eq!(screen.round_result(&entry(None)), "It was a tie!");
}

#[test]
fn screens_say_which_keys_they_can_take() {
    let mut menu = MainMenu::new("localhost:8000");
    assert!(menu.can_take(Key::Down) && menu.can_take(Key::Up) && menu.can_take(Key::Char('\n')));
    menu.items.clear();
    assert!(!menu.can_take(Key::Down) && !menu.can_take(Key::Up) && menu.can_take(Key::Other));
    menu.selected = 1;
    assert!(menu.can_take(Key::Up));

    let mut create = CreateGame::new();
    assert!(create.can_take(Key::Down) && create.can_take(Key::Right));
    create.selected = usize::MAX;
    assert!(!create.can_take(Key::Down) && create.can_take(Key::Up) && create.can_take(Key::Right));
    create.on_event(Key::Up);
    assert_eq!(create.selected, usize::MAX - 1);
    create.selected = 1;
    create.game_type = usize::MAX;
    assert!(!create.can_take(Key::Right) && create.can_take(Key::Left));

    let mut browser = GameBrowser::new("localhost:8000");
    assert!(!browser.can_take(Key::Down) && !browser.can_take(Key::Up) && browser.can_take(Key::Char('\n')));
    browser.on_enter(vec![lobby("a", GameType::TicTacToe)]);
    browser.selected = 4;
    assert!(browser.can_take(Key::Down) && browser.can_take(Key::Up) && !browser.can_take(Key::Char('\n')));
    browser.on_event(Key::Down);
    assert_eq!(browser.selected, 0);
    assert!(browser.can_take(Key::Char('\n')));

    let mut board = TicTacToe::new(PlayerId::new(1), "den");
    assert!(board.is_on_board() && board.has_token());
    for key in [Key::Up, Key::Down, Key::Left, Key::Right, Key::Char('\n')] {
        assert!(board.can_take(key));
    }
    board.selection = (i16::MAX, i16::MIN);
    assert!(!board.is_on_board());
    assert!(!board.can_take(Key::Right) && !board.can_take(Key::Down));
    assert!(board.can_take(Key::Left) && board.can_take(Key::Up));
    board.on_event(Key::Up);
    assert_eq!(board.selection, (i16::MAX, i16::MIN + 1));
    board.on_event(Key::Left);
    assert_eq!(board.selection, (i16::MAX - 1, i16::MIN + 1));
    let mut tokens = tictactoe::Tokens::new();
    tokens.insert(PlayerId::new(2), BoardCell::X);
    tokens.insert(PlayerId::new(3), BoardCell::Circle);
    board.state = tictactoe::GameState::WaitingForInput {
        active_player: PlayerId::new(2),
        waiting: PlayerId::new(3),
        tokens,
        board: [[None; 3]; 3],
    };
    assert!(!board.has_token());

    let mut moves = RockPaperScissors::new(PlayerId::new(1), "den");
    assert!(moves.can_take(Key::Right));
    moves.move_selection = usize::MAX;
    assert!(!moves.can_take(Key::Right) && moves.can_take(Key::Left) && moves.can_take(Key::Char('\n')));
    match moves.on_event(Key::Char('\n')) {
        Reaction::Play { action } => assert_eq!(action, Move::Scissors),
        _ => panic!("the move should be sent"),
    }
}

#[test]
fn game_screens_show_what_the_server_reports() {
    let me = PlayerId::new(1);
    let other = PlayerId::new(2);
    let mut screen = TicTacToe::new(me, "den");
    let rounds = Game::from(GameType::RockPaperScissors);
    assert!(!screen.can_show(&rounds));
    assert!(screen.can_show(&Game::from(GameType::TicTacToe)));

    let strangers = tictactoe::Tokens::from_pairs(&vec![(other, BoardCell::X), (PlayerId::new(3), BoardCell::Circle)]);
    let board = [[None, Some(BoardCell::X), None], [None; 3], [None; 3]];
    let not_mine =
        tictactoe::GameState::WaitingForInput { active_player: other, waiting: PlayerId::new(3), tokens: strangers, board };
    assert!(!screen.can_show(&Game::TicTacToe(not_mine)));

    let tokens = tictactoe::Tokens::from_pairs(&vec![(other, BoardCell::X), (me, BoardCell::Circle)]);
    let mine = Game::TicTacToe(tictactoe::GameState::WaitingForInput {
        active_player: me,
        waiting: other,
        tokens,
        board,
    });
    assert!(screen.can_show(&mine));
    screen.selection = (1, 1);
    screen.show(mine);
    assert_eq!(screen.status, "It's your turn");
    assert_eq!(screen.board, board);
    assert_eq!(screen.player_token, BoardCell::Circle);
    assert_eq!(screen.selection, (1, 1));
    assert!(matches!(&screen.state, tictactoe::GameState::WaitingForInput { active_player, .. } if *active_player == me));

    let mut screen = RockPaperScissors::new(me, "den");
    assert!(!screen.can_show(&Game::from(GameType::TicTacToe)));
    let over = Game::RockPaperScissors(rockpaperscissors::GameState::GameOver { winner: me, history: vec![] });
    assert!(screen.can_show(&over));
    screen.show(over);
    assert_eq!(screen.status, "The game is over, you've won!");
    assert!(matches!(&screen.state, rockpaperscissors::GameState::GameOver { winner, .. } if *winner == me));
}
