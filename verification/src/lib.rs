//! Two players join a named lobby and play a small turn-based game to its end.
//!
//! Each game is a state machine with a transition function that checks every
//! action; the registry keeps the lobbies and applies actions to their sessions.

use vstd::prelude::*;
use vstd::std_specs::convert::FromSpecImpl;

pub mod bijection;
pub mod player;
pub mod registry;
pub mod rockpaperscissors;
pub mod states;
pub mod tictactoe;

verus! {

/// An action, for one of the games.
#[derive(Clone, Copy, Debug)]
pub enum Action {
    TicTacToe(tictactoe::PlayerAction),
    RockPaperScissors(rockpaperscissors::PlayerAction),
}

/// The session of a lobby, for one of the games.
#[derive(Debug)]
pub enum Game {
    TicTacToe(tictactoe::GameState),
    RockPaperScissors(rockpaperscissors::GameState),
}

/// What the session of a lobby is, mathematically.
pub enum GameView {
    TicTacToe(tictactoe::Session),
    RockPaperScissors(rockpaperscissors::Session),
}

/// The games a lobby can host.
#[derive(Clone, Copy, Debug, PartialEq, Eq, Structural)]
pub enum GameType {
    TicTacToe,
    RockPaperScissors,
}

/// Why the registry, or the session of a lobby, did not do what was asked.
#[derive(Clone, Copy, Debug, PartialEq, Eq, Structural)]
pub enum LobbyError {
    /// No lobby has this name.
    LobbyNotFound,
    /// A lobby of this name exists already.
    DuplicateLobby,
    /// The action belongs to another game than the one that the lobby hosts.
    InvalidGameType,
    TicTacToe(tictactoe::InvalidAction),
    RockPaperScissors(rockpaperscissors::InvalidAction),
}

impl View for Game {
    type V = GameView;

    open spec fn view(&self) -> GameView {
        match *self {
            Game::TicTacToe(state) => GameView::TicTacToe(state@),
            Game::RockPaperScissors(state) => GameView::RockPaperScissors(state@),
        }
    }
}

impl GameView {
    /// The session in which a game of the given kind begins.
    pub open spec fn initial(game_type: GameType) -> GameView {
        match game_type {
            GameType::TicTacToe => GameView::TicTacToe(tictactoe::Session::fresh()),
            GameType::RockPaperScissors => GameView::RockPaperScissors(rockpaperscissors::Session::fresh()),
        }
    }

    /// The kind of game that the session is of.
    pub open spec fn game_type(self) -> GameType {
        match self {
            GameView::TicTacToe(_) => GameType::TicTacToe,
            GameView::RockPaperScissors(_) => GameType::RockPaperScissors,
        }
    }

    /// The session can take an action.
    pub open spec fn playable(self) -> bool {
        match self {
            GameView::TicTacToe(session) => session.playable(),
            GameView::RockPaperScissors(session) => session.playable(),
        }
    }

    /// The session after `action`, or the reason why the action is refused. An
    /// action for another game is refused as `InvalidGameType`. `coin` matters only
    /// when the second player joins a game of tic-tac-toe.
    pub open spec fn step(self, action: Action, coin: bool) -> Result<GameView, LobbyError> {
        match self {
            GameView::TicTacToe(session) => match action {
                Action::TicTacToe(action) => match session.step(action, coin) {
                    Ok(next) => Ok(GameView::TicTacToe(next)),
                    Err(e) => Err(LobbyError::TicTacToe(e)),
                },
                _ => Err(LobbyError::InvalidGameType),
            },
            GameView::RockPaperScissors(session) => match action {
                Action::RockPaperScissors(action) => match session.step(action) {
                    Ok(next) => Ok(GameView::RockPaperScissors(next)),
                    Err(e) => Err(LobbyError::RockPaperScissors(e)),
                },
                _ => Err(LobbyError::InvalidGameType),
            },
        }
    }
}

/// What the result of an action is, mathematically.
pub open spec fn outcome_view(result: Result<Game, LobbyError>) -> Result<GameView, LobbyError> {
    match result {
        Ok(game) => Ok(game@),
        Err(e) => Err(e),
    }
}

impl Clone for Game {
    /// A copy that stands for the same session.
    fn clone(&self) -> (game: Game)
        ensures
            game@ == self@,
    {
        match self {
            Game::TicTacToe(state) => Game::TicTacToe(state.clone()),
            Game::RockPaperScissors(state) => Game::RockPaperScissors(state.clone()),
        }
    }
}

impl Game {
    /// Whether an action can be applied to the session.
    pub fn is_playable(&self) -> (ok: bool)
        ensures
            ok == self@.playable(),
    {
        match self {
            Game::TicTacToe(state) => state.is_playable(),
            Game::RockPaperScissors(state) => state.is_playable(),
        }
    }

    /// Applies `action` to the session, with a given coin, and returns the session
    /// that follows, or the reason why the action is refused.
    pub fn apply_with(&self, action: Action, coin: bool) -> (result: Result<Game, LobbyError>)
        requires
            self@.playable(),
        ensures
            outcome_view(result) == self@.step(action, coin),
    {
        match self {
            Game::TicTacToe(state) => {
                if let Action::TicTacToe(action) = action {
                    match tictactoe::process_input_with(action, state.clone(), coin) {
                        Ok(new_state) => Ok(Game::TicTacToe(new_state)),
                        Err(e) => Err(LobbyError::TicTacToe(e)),
                    }
                } else {
                    Err(LobbyError::InvalidGameType)
                }
            },
            Game::RockPaperScissors(state) => {
                if let Action::RockPaperScissors(action) = action {
                    match state.apply(action) {
                        Ok(new_state) => Ok(Game::RockPaperScissors(new_state)),
                        Err(e) => Err(LobbyError::RockPaperScissors(e)),
                    }
                } else {
                    Err(LobbyError::InvalidGameType)
                }
            },
        }
    }
}

impl From<GameType> for Game {
    /// The session in which a game of the given kind begins: nobody has joined.
    fn from(_type: GameType) -> (game: Game)
        ensures
            game@ == GameView::initial(_type),
    {
        match _type {
            GameType::TicTacToe => Game::TicTacToe(tictactoe::GameState::default()),
            GameType::RockPaperScissors => Game::RockPaperScissors(rockpaperscissors::GameState::default()),
        }
    }
}

/// What `from` returns is stated by its own `ensures`, over the view: a session holds
/// a `Vec`, which no specification function can make, so `from_spec` names no value.
impl FromSpecImpl<GameType> for Game {
    open spec fn obeys_from_spec() -> bool {
        false
    }

    open spec fn from_spec(_type: GameType) -> Game {
        arbitrary()
    }
}

/// A named lobby with its session.
#[derive(Debug)]
pub struct Lobby {
    pub name: String,
    pub players: usize,
    pub max_players: usize,
    pub game_type: GameType,
    pub game: Game,
}

/// What a lobby is, mathematically.
pub struct LobbyView {
    pub name: Seq<char>,
    pub players: usize,
    pub max_players: usize,
    pub game_type: GameType,
    pub game: GameView,
}

impl View for Lobby {
    type V = LobbyView;

    open spec fn view(&self) -> LobbyView {
        LobbyView {
            name: self.name@,
            players: self.players,
            max_players: self.max_players,
            game_type: self.game_type,
            game: self.game@,
        }
    }
}

impl Clone for Lobby {
    /// A copy that stands for the same lobby.
    fn clone(&self) -> (lobby: Lobby)
        ensures
            lobby@ == self@,
    {
        Lobby {
            name: self.name.clone(),
            players: self.players,
            max_players: self.max_players,
            game_type: self.game_type,
            game: self.game.clone(),
        }
    }
}

/// The answer to a player who has joined a lobby.
#[derive(Clone, Copy, Debug)]
pub struct JoinResponse {
    pub player: player::PlayerId,
    pub game_type: GameType,
}

/// The request to open a lobby.
#[derive(Debug)]
pub struct CreateLobbyRequest {
    pub name: String,
    pub game: GameType,
}

} // verus!
