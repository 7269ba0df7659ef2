//! The screens of the terminal client: what each of them holds and how it answers a
//! key. Drawing them and talking to the server is left to the program around them.

use vstd::prelude::*;
use crate::player::PlayerId;
use crate::rockpaperscissors;
use crate::rockpaperscissors::{HistoryEntry, Move};
use crate::tictactoe;
use crate::tictactoe::{Board, BoardCell};
use crate::{Game, GameType, GameView, Lobby};

verus! {

/// A key that the player has pressed.
#[derive(Clone, Copy, Debug, PartialEq, Eq, Structural)]
pub enum Key {
    Up,
    Down,
    Left,
    Right,
    Backspace,
    /// A character; the return key is `'\n'`.
    Char(char),
    /// Any other key.
    Other,
}

/// What a screen asks for after a key: the screens decide, the program around them
/// talks to the server and opens the next screen.
#[derive(Debug)]
pub enum Reaction {
    /// Nothing to do.
    Stay,
    /// Open the screen on which a lobby is created.
    OpenCreateGame,
    /// Open the list of lobbies.
    OpenGameBrowser,
    /// Ask the server for a lobby of this name and kind, join it, and open the game.
    CreateAndJoin { name: String, game: GameType },
    /// Join the lobby of this name and open its game.
    Join { lobby: String },
    /// Send the server the player's token for this cell of the board.
    PlaceToken { position: (usize, usize) },
    /// Send the server the player's move.
    Play { action: Move },
}

/// What a reaction is, mathematically.
pub enum ReactionView {
    Stay,
    OpenCreateGame,
    OpenGameBrowser,
    CreateAndJoin { name: Seq<char>, game: GameType },
    Join { lobby: Seq<char> },
    PlaceToken { position: (usize, usize) },
    Play { action: Move },
}

impl View for Reaction {
    type V = ReactionView;

    open spec fn view(&self) -> ReactionView {
        match *self {
            Reaction::Stay => ReactionView::Stay,
            Reaction::OpenCreateGame => ReactionView::OpenCreateGame,
            Reaction::OpenGameBrowser => ReactionView::OpenGameBrowser,
            Reaction::CreateAndJoin { name, game } => ReactionView::CreateAndJoin { name: name@, game },
            Reaction::Join { lobby } => ReactionView::Join { lobby: lobby@ },
            Reaction::PlaceToken { position } => ReactionView::PlaceToken { position },
            Reaction::Play { action } => ReactionView::Play { action },
        }
    }
}

/// The texts that a list of strings holds.
pub open spec fn texts_of(strings: Seq<String>) -> Seq<Seq<char>> {
    Seq::new(strings.len(), |i: int| strings[i]@)
}

/// A line of text after a key was typed into it: a character is appended, the
/// backspace key takes the last character away, any other key changes nothing.
pub open spec fn typed(text: Seq<char>, key: Key) -> Seq<char> {
    match key {
        Key::Char(c) => text.push(c),
        Key::Backspace => if text.len() > 0 {
            text.drop_last()
        } else {
            text
        },
        _ => text,
    }
}

/// The entry after `selected` in a list of `count` entries, from the last to the
/// first.
pub open spec fn next_of(selected: int, count: int) -> int {
    if selected >= count - 1 {
        0
    } else {
        selected + 1
    }
}

/// The entry before `selected` in a list of `count` entries, from the first to the
/// last.
pub open spec fn previous_of(selected: int, count: int) -> int {
    if selected > 0 {
        selected - 1
    } else {
        count - 1
    }
}

/// `String::push`: the character is appended to the text.
#[verifier::external_body]
fn push_char(text: &mut String, c: char)
    ensures
        final(text)@ == old(text)@.push(c),
{
    text.push(c);
}

/// `String::pop`: the last character is taken off the text and returned; an empty
/// text stays empty and gives `None`.
#[verifier::external_body]
fn pop_char(text: &mut String) -> (last: Option<char>)
    ensures
        old(text)@.len() == 0 ==> last is None && final(text)@ == old(text)@,
        old(text)@.len() > 0 ==> last == Some(old(text)@.last()) && final(text)@ == old(text)@.drop_last(),
{
    text.pop()
}

/// The screen on which the player enters the address of the server.
#[derive(Debug)]
pub struct Connect {
    pub address: String,
    /// Current value of the input box.
    pub input: String,
    /// History of recorded messages.
    pub messages: Vec<String>,
}

impl Connect {
    /// The screen with nothing entered.
    pub fn new() -> (screen: Self)
        ensures
            screen.address@.len() == 0,
            screen.input@.len() == 0,
            screen.messages@.len() == 0,
    {
        Self { address: String::new(), input: String::new(), messages: Vec::new() }
    }

    /// Takes a key. The return key records the input as a message and empties the
    /// input box; every other key is typed into the input box.
    pub fn on_event(&mut self, key: Key) -> (reaction: Reaction)
        ensures
            reaction@ == ReactionView::Stay,
            final(self).address == old(self).address,
            key == Key::Char('\n') ==> final(self).input@.len() == 0 && texts_of(final(self).messages@) == texts_of(
                old(self).messages@,
            ).push(old(self).input@),
            key != Key::Char('\n') ==> final(self).input@ == typed(old(self).input@, key) && final(self).messages
                == old(self).messages,
    {
        match key {
            Key::Char(c) => {
                if c == '\n' {
                    let ghost before = texts_of(self.messages@);
                    let message = self.input.clone();
                    self.input = String::new();
                    self.messages.push(message);
                    assert(texts_of(self.messages@) =~= before.push(message@));
                } else {
                    push_char(&mut self.input, c);
                }
            },
            Key::Backspace => {
                let _ = pop_char(&mut self.input);
            },
            _ => {},
        }
        Reaction::Stay
    }
}

/// The main menu.
#[derive(Debug)]
pub struct MainMenu {
    pub selected: usize,
    pub items: Vec<String>,
    pub address: String,
}

impl MainMenu {
    /// The menu for the server at `server_address`, with its first entry selected.
    pub fn new(server_address: &str) -> (menu: Self)
        ensures
            menu.selected == 0,
            texts_of(menu.items@) == seq!["Create a game"@, "Join a game"@],
            menu.address@ == server_address@,
    {
        let items = vec!["Create a game".to_owned(), "Join a game".to_owned()];
        assert(texts_of(items@) =~= seq!["Create a game"@, "Join a game"@]);
        Self { selected: 0, items, address: server_address.to_owned() }
    }

    /// The key can be taken: the selection cannot go round a menu without entries.
    pub open spec fn accepts(&self, key: Key) -> bool {
        match key {
            Key::Down => self.items.len() > 0,
            Key::Up => self.selected > 0 || self.items.len() > 0,
            _ => true,
        }
    }

    /// Whether the key can be taken.
    pub fn can_take(&self, key: Key) -> (ok: bool)
        ensures
            ok == self.accepts(key),
    {
        match key {
            Key::Down => self.items.len() > 0,
            Key::Up => self.selected > 0 || self.items.len() > 0,
            _ => true,
        }
    }

    /// Takes a key. Down and up move the selection round the entries; the return key
    /// opens the screen of the selected entry: the first creates a game, the second
    /// lists the lobbies.
    pub fn on_event(&mut self, key: Key) -> (reaction: Reaction)
        requires
            old(self).accepts(key),
        ensures
            final(self).items == old(self).items,
            final(self).address == old(self).address,
            final(self).selected == (match key {
                Key::Down => next_of(old(self).selected as int, old(self).items.len() as int),
                Key::Up => previous_of(old(self).selected as int, old(self).items.len() as int),
                _ => old(self).selected as int,
            }),
            reaction@ == (if key == Key::Char('\n') && old(self).selected == 0 {
                ReactionView::OpenCreateGame
            } else if key == Key::Char('\n') && old(self).selected == 1 {
                ReactionView::OpenGameBrowser
            } else {
                ReactionView::Stay
            }),
    {
        match key {
            Key::Down => {
                self.selected = if self.selected >= self.items.len() - 1 {
                    0
                } else {
                    self.selected + 1
                };
            },
            Key::Up => {
                self.selected = if self.selected > 0 {
                    self.selected - 1
                } else {
                    self.items.len() - 1
                };
            },
            Key::Char(c) => {
                if c == '\n' {
                    if self.selected == 0 {
                        return Reaction::OpenCreateGame;
                    }
                    if self.selected == 1 {
                        return Reaction::OpenGameBrowser;
                    }
                }
            },
            _ => {},
        }
        Reaction::Stay
    }
}

/// The number of rows of the screen on which a lobby is created.
pub const SELECTION_MAX: usize = 3;

/// The number of kinds of game to choose from.
pub const GAME_TYPES: usize = 2;

/// The screen on which the player names a lobby and creates it.
#[derive(Debug)]
pub struct CreateGame {
    pub lobby_name: String,
    /// The kind of game that is shown as chosen.
    pub game_type: usize,
    /// The selected row: 0 is the name, 1 the kind of game.
    pub selected: usize,
}

impl CreateGame {
    /// The screen with no name entered and the first row selected.
    pub fn new() -> (screen: Self)
        ensures
            screen.lobby_name@.len() == 0,
            screen.game_type == 0,
            screen.selected == 0,
    {
        Self { lobby_name: String::new(), game_type: 0, selected: 0 }
    }

    /// The key can be taken: the numbers that it would count up are not the largest
    /// that there are.
    pub open spec fn accepts(&self, key: Key) -> bool {
        match key {
            Key::Down => self.selected < usize::MAX,
            Key::Right => self.selected == 1 ==> self.game_type < usize::MAX,
            _ => true,
        }
    }

    /// Whether the key can be taken.
    pub fn can_take(&self, key: Key) -> (ok: bool)
        ensures
            ok == self.accepts(key),
    {
        match key {
            Key::Down => self.selected < usize::MAX,
            Key::Right => self.selected != 1 || self.game_type < usize::MAX,
            _ => true,
        }
    }

    /// Takes a key. Down and up move the selection round the rows. On the row of the
    /// name, keys are typed into the name. On the row of the kind of game, right and
    /// left move round the kinds, and the return key asks for a lobby of tic-tac-toe
    /// under the name entered.
    pub fn on_event(&mut self, key: Key) -> (reaction: Reaction)
        requires
            old(self).accepts(key),
        ensures
            old(self).selected < SELECTION_MAX ==> final(self).selected < SELECTION_MAX,
            old(self).game_type < GAME_TYPES ==> final(self).game_type < GAME_TYPES,
            final(self).selected == (match key {
                Key::Down => next_of(old(self).selected as int, SELECTION_MAX as int),
                Key::Up => previous_of(old(self).selected as int, SELECTION_MAX as int),
                _ => old(self).selected as int,
            }),
            final(self).game_type == (match key {
                Key::Right if old(self).selected == 1 => next_of(old(self).game_type as int, GAME_TYPES as int),
                Key::Left if old(self).selected == 1 => previous_of(old(self).game_type as int, GAME_TYPES as int),
                _ => old(self).game_type as int,
            }),
            final(self).lobby_name@ == (if old(self).selected == 0 && key != Key::Char('\n') {
                typed(old(self).lobby_name@, key)
            } else {
                old(self).lobby_name@
            }),
            reaction@ == (if key == Key::Char('\n') && old(self).selected == 1 {
                ReactionView::CreateAndJoin { name: old(self).lobby_name@, game: GameType::TicTacToe }
            } else {
                ReactionView::Stay
            }),
    {
        match key {
            Key::Down => {
                self.selected += 1;
                if self.selected > SELECTION_MAX - 1 {
                    self.selected = 0;
                }
            },
            Key::Up => {
                if self.selected > 0 {
                    self.selected -= 1;
                } else {
                    self.selected = SELECTION_MAX - 1;
                }
            },
            Key::Right => {
                if self.selected == 1 {
                    self.game_type += 1;
                    if self.game_type > GAME_TYPES - 1 {
                        self.game_type = 0;
                    }
                }
            },
            Key::Left => {
                if self.selected == 1 {
                    if self.game_type > 0 {
                        self.game_type -= 1;
                    } else {
                        self.game_type = GAME_TYPES - 1;
                    }
                }
            },
            Key::Char(c) => {
                if c == '\n' {
                    if self.selected == 1 {
                        return Reaction::CreateAndJoin { name: self.lobby_name.clone(), game: GameType::TicTacToe };
                    }
                } else if self.selected == 0 {
                    push_char(&mut self.lobby_name, c);
                }
            },
            Key::Backspace => {
                if self.selected == 0 {
                    let _ = pop_char(&mut self.lobby_name);
                }
            },
            _ => {},
        }
        Reaction::Stay
    }
}

/// The list of the lobbies of a server.
#[derive(Debug)]
pub struct GameBrowser {
    pub items: Vec<Lobby>,
    pub selected: usize,
    pub server_address: String,
}

impl GameBrowser {
    /// The list for the server at `server_address`, still empty.
    pub fn new(server_address: &str) -> (browser: Self)
        ensures
            browser.items@.len() == 0,
            browser.selected == 0,
            browser.server_address@ == server_address@,
    {
        Self { items: Vec::new(), selected: 0, server_address: server_address.to_owned() }
    }

    /// Shows the lobbies that the server has listed, in place of those shown before.
    pub fn on_enter(&mut self, lobbies: Vec<Lobby>)
        ensures
            final(self).items == lobbies,
            final(self).selected == old(self).selected,
            final(self).server_address == old(self).server_address,
    {
        self.items = lobbies;
    }

    /// The key can be taken: the selection cannot go round an empty list, and a lobby
    /// can only be chosen where the selection is on one.
    pub open spec fn accepts(&self, key: Key) -> bool {
        match key {
            Key::Down => self.items.len() > 0 && self.selected < usize::MAX,
            Key::Up => self.selected > 0 || self.items.len() > 0,
            Key::Char(c) => c == '\n' ==> self.items.len() == 0 || self.selected < self.items.len(),
            _ => true,
        }
    }

    /// Whether the key can be taken.
    pub fn can_take(&self, key: Key) -> (ok: bool)
        ensures
            ok == self.accepts(key),
    {
        match key {
            Key::Down => self.items.len() > 0 && self.selected < usize::MAX,
            Key::Up => self.selected > 0 || self.items.len() > 0,
            Key::Char(c) => c != '\n' || self.items.len() == 0 || self.selected < self.items.len(),
            _ => true,
        }
    }

    /// Takes a key. Down and up move the selection round the lobbies; the return key
    /// asks to join the selected lobby, if there is any.
    pub fn on_event(&mut self, key: Key) -> (reaction: Reaction)
        requires
            old(self).accepts(key),
        ensures
            final(self).items == old(self).items,
            final(self).server_address == old(self).server_address,
            final(self).selected == (match key {
                Key::Down => next_of(old(self).selected as int, old(self).items.len() as int),
                Key::Up => previous_of(old(self).selected as int, old(self).items.len() as int),
                _ => old(self).selected as int,
            }),
            reaction@ == (if key == Key::Char('\n') && old(self).items.len() > 0 {
                ReactionView::Join { lobby: old(self).items[old(self).selected as int].name@ }
            } else {
                ReactionView::Stay
            }),
    {
        match key {
            Key::Down => {
                self.selected += 1;
                if self.selected > self.items.len() - 1 {
                    self.selected = 0;
                }
            },
            Key::Up => {
                if self.selected > 0 {
                    self.selected -= 1;
                } else {
                    self.selected = self.items.len() - 1;
                }
            },
            Key::Char(c) => {
                if c == '\n' && !self.items.is_empty() {
                    return Reaction::Join { lobby: self.items[self.selected].name.clone() };
                }
            },
            _ => {},
        }
        Reaction::Stay
    }
}


/// What the screen of tic-tac-toe tells `player` about a session.
pub open spec fn tictactoe_status(session: tictactoe::Session, player: PlayerId) -> Seq<char> {
    match session {
        tictactoe::Session::WaitingForPlayers { .. } => "Waiting for another player"@,
        tictactoe::Session::WaitingForInput { active_player, .. } => if player == active_player {
            "It's your turn"@
        } else {
            "Waiting for the other play to make their move."@
        },
        tictactoe::Session::GameOver { winner, .. } => match winner {
            Some(winner) => if player == winner {
                "The game is over, you've won!"@
            } else {
                "The game is over, you've lost."@
            },
            None => "The game is over, it was a tie."@,
        },
    }
}

/// The coordinate after `at` on a side of the board, from the last to the first.
pub open spec fn forward(at: i16) -> i16 {
    if at + 1 >= 3 {
        0
    } else {
        (at + 1) as i16
    }
}

/// The coordinate before `at` on a side of the board, from the first to the last.
pub open spec fn backward(at: i16) -> i16 {
    if at - 1 < 0 {
        2
    } else {
        (at - 1) as i16
    }
}

/// What a cell of the board holds, as a player sees it.
#[derive(Clone, Copy, Debug, PartialEq, Eq, Structural)]
pub enum Highlight {
    /// Nothing: a token can be put there.
    Free,
    /// A token of the player's.
    Own,
    /// A token of the other player's.
    Taken,
}

/// What a cell holds for the player whose token is `own`.
pub open spec fn highlight_of(cell: Option<BoardCell>, own: BoardCell) -> Highlight {
    match cell {
        None => Highlight::Free,
        Some(token) => if token == own {
            Highlight::Own
        } else {
            Highlight::Taken
        },
    }
}

/// The screen of a game of tic-tac-toe, as one player sees it.
#[derive(Debug)]
pub struct TicTacToe {
    pub board: Board,
    pub player_token: BoardCell,
    /// The selected cell.
    pub selection: (i16, i16),
    pub player: PlayerId,
    pub lobby: String,
    /// The session as the server last reported it.
    pub state: tictactoe::GameState,
    pub status: String,
}

impl TicTacToe {
    /// The screen for `player` in the lobby named `lobby`, before the server has
    /// reported anything.
    pub fn new(player: PlayerId, lobby: &str) -> (screen: Self)
        ensures
            tictactoe::grid_of(screen.board) == tictactoe::empty_grid(),
            screen.player_token == BoardCell::X,
            screen.selection == (0i16, 0i16),
            screen.player == player,
            screen.lobby@ == lobby@,
            screen.state@ == tictactoe::Session::fresh(),
            screen.status@ == "waiting"@,
    {
        let board: Board = [[None, None, None], [None, None, None], [None, None, None]];
        assert(tictactoe::grid_of(board) =~~= tictactoe::empty_grid());
        Self {
            board,
            player_token: BoardCell::X,
            selection: (0, 0),
            player,
            lobby: lobby.to_owned(),
            state: tictactoe::GameState::default(),
            status: "waiting".to_owned(),
        }
    }

    /// The player has a token in the session that is shown, if a game is running.
    pub open spec fn takes_part(&self) -> bool {
        self.state@ is WaitingForInput ==> self.state@->tokens.contains_key(self.player)
    }

    /// Whether the player has a token in the session that is shown, if a game is
    /// running.
    pub fn has_token(&self) -> (ok: bool)
        ensures
            ok == self.takes_part(),
    {
        match &self.state {
            tictactoe::GameState::WaitingForInput { tokens, .. } => tokens.get_by_left(&self.player).is_some(),
            _ => true,
        }
    }

    /// Brings the screen in line with the session: the status line, and once the
    /// game has started the board and the player's token.
    pub fn update(&mut self)
        requires
            old(self).takes_part(),
        ensures
            final(self).state == old(self).state,
            final(self).player == old(self).player,
            final(self).lobby == old(self).lobby,
            final(self).selection == old(self).selection,
            final(self).status@ == tictactoe_status(old(self).state@, old(self).player),
            final(self).board == (match old(self).state {
                tictactoe::GameState::WaitingForPlayers { .. } => old(self).board,
                tictactoe::GameState::WaitingForInput { board, .. } => board,
                tictactoe::GameState::GameOver { board, .. } => board,
            }),
            final(self).player_token == (match old(self).state@ {
                tictactoe::Session::WaitingForInput { tokens, .. } => tokens[old(self).player],
                _ => old(self).player_token,
            }),
    {
        match &self.state {
            tictactoe::GameState::WaitingForPlayers { .. } => {
                self.status = "Waiting for another player".to_owned();
            },
            tictactoe::GameState::WaitingForInput { active_player, board, tokens, .. } => {
                self.board = *board;
                self.player_token = tokens.get_by_left(&self.player).unwrap();
                if self.player == *active_player {
                    self.status = "It's your turn".to_owned();
                } else {
                    self.status = "Waiting for the other play to make their move.".to_owned();
                }
            },
            tictactoe::GameState::GameOver { winner, board } => {
                self.board = *board;
                match winner {
                    Some(winner) => {
                        if self.player == *winner {
                            self.status = "The game is over, you've won!".to_owned();
                        } else {
                            self.status = "The game is over, you've lost.".to_owned();
                        }
                    },
                    None => {
                        self.status = "The game is over, it was a tie.".to_owned();
                    },
                }
            },
        }
    }

    /// The session can be shown to the player: it is a session of tic-tac-toe, and if
    /// its game is running the player has a token in it.
    pub open spec fn shows(&self, game: GameView) -> bool {
        &&& game is TicTacToe
        &&& game->TicTacToe_0 is WaitingForInput ==> game->TicTacToe_0->tokens.contains_key(self.player)
    }

    /// Whether the session can be shown to the player.
    pub fn can_show(&self, game: &Game) -> (ok: bool)
        ensures
            ok == self.shows(game@),
    {
        match game {
            Game::TicTacToe(tictactoe::GameState::WaitingForInput { tokens, .. }) => tokens.get_by_left(
                &self.player,
            ).is_some(),
            Game::TicTacToe(_) => true,
            _ => false,
        }
    }

    /// Takes the session that the server has reported and brings the screen in line
    /// with it.
    pub fn show(&mut self, game: Game)
        requires
            old(self).shows(game@),
        ensures
            Game::TicTacToe(final(self).state) == game,
            final(self).player == old(self).player,
            final(self).lobby == old(self).lobby,
            final(self).selection == old(self).selection,
            final(self).status@ == tictactoe_status(game@->TicTacToe_0, old(self).player),
            tictactoe::grid_of(final(self).board) == (match game@->TicTacToe_0 {
                tictactoe::Session::WaitingForPlayers { .. } => tictactoe::grid_of(old(self).board),
                tictactoe::Session::WaitingForInput { board, .. } => board,
                tictactoe::Session::GameOver { board, .. } => board,
            }),
            final(self).player_token == (match game@->TicTacToe_0 {
                tictactoe::Session::WaitingForInput { tokens, .. } => tokens[old(self).player],
                _ => old(self).player_token,
            }),
    {
        if let Game::TicTacToe(state) = game {
            self.state = state;
            self.update();
        }
    }

    /// The selection is on the board.
    pub open spec fn on_board(&self) -> bool {
        0 <= self.selection.0 < 3 && 0 <= self.selection.1 < 3
    }

    /// Whether the selection is on the board.
    pub fn is_on_board(&self) -> (ok: bool)
        ensures
            ok == self.on_board(),
    {
        0 <= self.selection.0 && self.selection.0 < 3 && 0 <= self.selection.1 && self.selection.1 < 3
    }

    /// What the selected cell holds, as the player sees it.
    pub fn highlight(&self) -> (highlight: Highlight)
        requires
            self.on_board(),
        ensures
            highlight == highlight_of(
                tictactoe::grid_of(self.board)[self.selection.0 as int][self.selection.1 as int],
                self.player_token,
            ),
    {
        let (x, y) = self.selection;
        match self.board[x as usize][y as usize] {
            None => Highlight::Free,
            Some(token) => if token == self.player_token {
                Highlight::Own
            } else {
                Highlight::Taken
            },
        }
    }

    /// The key can be taken: the coordinate that it would count up or down is not the
    /// largest or the smallest that there is.
    pub open spec fn accepts(&self, key: Key) -> bool {
        match key {
            Key::Up => self.selection.1 < i16::MAX,
            Key::Down => self.selection.1 > i16::MIN,
            Key::Right => self.selection.0 < i16::MAX,
            Key::Left => self.selection.0 > i16::MIN,
            _ => true,
        }
    }

    /// Whether the key can be taken.
    pub fn can_take(&self, key: Key) -> (ok: bool)
        ensures
            ok == self.accepts(key),
    {
        match key {
            Key::Up => self.selection.1 < i16::MAX,
            Key::Down => self.selection.1 > i16::MIN,
            Key::Right => self.selection.0 < i16::MAX,
            Key::Left => self.selection.0 > i16::MIN,
            _ => true,
        }
    }

    /// Takes a key. The arrow keys move the selection round the board; the return
    /// key asks to put the player's token on the selected cell.
    pub fn on_event(&mut self, key: Key) -> (reaction: Reaction)
        requires
            old(self).accepts(key),
        ensures
            old(self).on_board() ==> final(self).on_board(),
            final(self).selection == (match key {
                Key::Up => (old(self).selection.0, forward(old(self).selection.1)),
                Key::Down => (old(self).selection.0, backward(old(self).selection.1)),
                Key::Right => (forward(old(self).selection.0), old(self).selection.1),
                Key::Left => (backward(old(self).selection.0), old(self).selection.1),
                _ => old(self).selection,
            }),
            final(self).state == old(self).state,
            final(self).board == old(self).board,
            final(self).status == old(self).status,
            final(self).player == old(self).player,
            final(self).lobby == old(self).lobby,
            final(self).player_token == old(self).player_token,
            reaction@ == (if key == Key::Char('\n') {
                ReactionView::PlaceToken {
                    position: (old(self).selection.0 as usize, old(self).selection.1 as usize),
                }
            } else {
                ReactionView::Stay
            }),
    {
        match key {
            Key::Up => {
                self.selection.1 = if self.selection.1 + 1 >= 3 {
                    0
                } else {
                    self.selection.1 + 1
                };
            },
            Key::Down => {
                self.selection.1 = if self.selection.1 - 1 < 0 {
                    2
                } else {
                    self.selection.1 - 1
                };
            },
            Key::Right => {
                self.selection.0 = if self.selection.0 + 1 >= 3 {
                    0
                } else {
                    self.selection.0 + 1
                };
            },
            Key::Left => {
                self.selection.0 = if self.selection.0 - 1 < 0 {
                    2
                } else {
                    self.selection.0 - 1
                };
            },
            Key::Char(c) => {
                if c == '\n' {
                    let (x, y) = self.selection;
                    return Reaction::PlaceToken { position: (x as usize, y as usize) };
                }
            },
            _ => {},
        }
        Reaction::Stay
    }
}

/// What the screen of rock-paper-scissors tells `player` about a session.
pub open spec fn rockpaperscissors_status(session: rockpaperscissors::Session, player: PlayerId) -> Seq<char> {
    match session {
        rockpaperscissors::Session::WaitingForPlayers { .. } => "Waiting for another player before the game will begin."@,
        rockpaperscissors::Session::WaitingForInput { .. } => "Waiting for input"@,
        rockpaperscissors::Session::GameOver { winner, .. } => if player == winner {
            "The game is over, you've won!"@
        } else {
            "The game is over, you've lost."@
        },
    }
}

/// What the screen tells `player` about a round that `winner` has won; nobody has
/// won a tie.
pub open spec fn round_text(winner: Option<PlayerId>, player: PlayerId) -> Seq<char> {
    match winner {
        Some(p) => if p == player {
            "You won that round!"@
        } else {
            "You lost that round."@
        },
        None => "It was a tie!"@,
    }
}

/// The move that stands at a place of the row of moves.
pub open spec fn move_at(selection: usize) -> Move {
    if selection == 0 {
        Move::Rock
    } else if selection == 1 {
        Move::Paper
    } else {
        Move::Scissors
    }
}

/// The number of moves to choose from.
pub const MOVES: usize = 3;

/// The screen of a game of rock-paper-scissors, as one player sees it.
#[derive(Debug)]
pub struct RockPaperScissors {
    pub address: String,
    /// Current value of the input box.
    pub input: String,
    /// History of recorded messages.
    pub messages: Vec<String>,
    pub player: PlayerId,
    pub lobby: String,
    /// The session as the server last reported it.
    pub state: rockpaperscissors::GameState,
    pub status: String,
    pub round: usize,
    pub move_selection: usize,
    pub history: Vec<HistoryEntry>,
}

impl RockPaperScissors {
    /// The screen for `player` in the lobby named `lobby`, before the server has
    /// reported anything.
    pub fn new(player: PlayerId, lobby: &str) -> (screen: Self)
        ensures
            screen.address@.len() == 0,
            screen.input@.len() == 0,
            screen.messages@.len() == 0,
            screen.player == player,
            screen.lobby@ == lobby@,
            screen.state@ == rockpaperscissors::Session::fresh(),
            screen.status@.len() == 0,
            screen.round == 0,
            screen.move_selection == 0,
            screen.history@.len() == 0,
    {
        Self {
            address: String::new(),
            input: String::new(),
            messages: Vec::new(),
            player,
            lobby: lobby.to_owned(),
            state: rockpaperscissors::GameState::WaitingForPlayers { players: Vec::new() },
            status: String::new(),
            round: 0,
            move_selection: 0,
            history: Vec::new(),
        }
    }

    /// Brings the screen in line with the session: the status line, and the round
    /// and the history of a running game. A finished game shows no history.
    pub fn update(&mut self)
        ensures
            final(self).state == old(self).state,
            final(self).player == old(self).player,
            final(self).lobby == old(self).lobby,
            final(self).move_selection == old(self).move_selection,
            final(self).status@ == rockpaperscissors_status(old(self).state@, old(self).player),
            final(self).round == (match old(self).state {
                rockpaperscissors::GameState::WaitingForInput { round, .. } => round,
                _ => old(self).round,
            }),
            rockpaperscissors::rounds_of(final(self).history@) == (match old(self).state@ {
                rockpaperscissors::Session::WaitingForPlayers { .. } => rockpaperscissors::rounds_of(old(self).history@),
                rockpaperscissors::Session::WaitingForInput { history, .. } => history,
                rockpaperscissors::Session::GameOver { .. } => Seq::empty(),
            }),
    {
        match &self.state {
            rockpaperscissors::GameState::WaitingForPlayers { .. } => {
                self.status = "Waiting for another player before the game will begin.".to_owned();
            },
            rockpaperscissors::GameState::WaitingForInput { round, history, .. } => {
                self.round = *round;
                self.history = rockpaperscissors::copy_history(history);
                self.status = "Waiting for input".to_owned();
            },
            rockpaperscissors::GameState::GameOver { winner, .. } => {
                self.history = Vec::new();
                assert(rockpaperscissors::rounds_of(self.history@) =~= Seq::empty());
                if self.player == *winner {
                    self.status = "The game is over, you've won!".to_owned();
                } else {
                    self.status = "The game is over, you've lost.".to_owned();
                }
            },
        }
    }

    /// Whether the session can be shown to the player: it is a session of
    /// rock-paper-scissors.
    pub fn can_show(&self, game: &Game) -> (ok: bool)
        ensures
            ok == (game@ is RockPaperScissors),
    {
        match game {
            Game::RockPaperScissors(_) => true,
            _ => false,
        }
    }

    /// Takes the session that the server has reported and brings the screen in line
    /// with it.
    pub fn show(&mut self, game: Game)
        requires
            game@ is RockPaperScissors,
        ensures
            Game::RockPaperScissors(final(self).state) == game,
            final(self).player == old(self).player,
            final(self).lobby == old(self).lobby,
            final(self).move_selection == old(self).move_selection,
            final(self).status@ == rockpaperscissors_status(game@->RockPaperScissors_0, old(self).player),
            final(self).round as nat == (match game@->RockPaperScissors_0 {
                rockpaperscissors::Session::WaitingForInput { round, .. } => round,
                _ => old(self).round as nat,
            }),
            rockpaperscissors::rounds_of(final(self).history@) == (match game@->RockPaperScissors_0 {
                rockpaperscissors::Session::WaitingForPlayers { .. } => rockpaperscissors::rounds_of(old(self).history@),
                rockpaperscissors::Session::WaitingForInput { history, .. } => history,
                rockpaperscissors::Session::GameOver { .. } => Seq::empty(),
            }),
    {
        if let Game::RockPaperScissors(state) = game {
            self.state = state;
            self.update();
        }
    }

    /// What the screen tells the player about a completed round.
    pub fn round_result(&self, entry: &HistoryEntry) -> (text: String)
        ensures
            text@ == round_text(entry.winner, self.player),
    {
        match entry.winner {
            Some(p) => {
                if p == self.player {
                    "You won that round!".to_owned()
                } else {
                    "You lost that round.".to_owned()
                }
            },
            None => "It was a tie!".to_owned(),
        }
    }

    /// The key can be taken: the number that it would count up is not the largest
    /// that there is.
    pub open spec fn accepts(&self, key: Key) -> bool {
        key == Key::Right ==> self.move_selection < usize::MAX
    }

    /// Whether the key can be taken.
    pub fn can_take(&self, key: Key) -> (ok: bool)
        ensures
            ok == self.accepts(key),
    {
        match key {
            Key::Right => self.move_selection < usize::MAX,
            _ => true,
        }
    }

    /// Takes a key. Right and left move the selection round the moves; the return
    /// key asks to play the selected move.
    pub fn on_event(&mut self, key: Key) -> (reaction: Reaction)
        requires
            old(self).accepts(key),
        ensures
            old(self).move_selection < MOVES ==> final(self).move_selection < MOVES,
            final(self).move_selection == (match key {
                Key::Right => next_of(old(self).move_selection as int, MOVES as int),
                Key::Left => previous_of(old(self).move_selection as int, MOVES as int),
                _ => old(self).move_selection as int,
            }),
            final(self).state == old(self).state,
            final(self).status == old(self).status,
            final(self).round == old(self).round,
            final(self).history == old(self).history,
            final(self).player == old(self).player,
            final(self).lobby == old(self).lobby,
            reaction@ == (if key == Key::Char('\n') {
                ReactionView::Play { action: move_at(old(self).move_selection) }
            } else {
                ReactionView::Stay
            }),
    {
        match key {
            Key::Right => {
                self.move_selection += 1;
                if self.move_selection > MOVES - 1 {
                    self.move_selection = 0;
                }
            },
            Key::Left => {
                if self.move_selection > 0 {
                    self.move_selection -= 1;
                } else {
                    self.move_selection = MOVES - 1;
                }
            },
            Key::Char(c) => {
                if c == '\n' {
                    let player_move = if self.move_selection == 0 {
                        Move::Rock
                    } else if self.move_selection == 1 {
                        Move::Paper
                    } else {
                        Move::Scissors
                    };
                    return Reaction::Play { action: player_move };
                }
            },
            _ => {},
        }
        Reaction::Stay
    }
}

} // verus!
