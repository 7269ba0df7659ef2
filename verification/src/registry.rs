//! The registry of lobbies: opening a lobby, listing the lobbies, joining one,
//! sending an action to its session and reading the session.

use vstd::prelude::*;
use crate::player::PlayerId;
use crate::rockpaperscissors;
use crate::tictactoe;
use crate::{outcome_view, Action, CreateLobbyRequest, Game, GameType, GameView, JoinResponse, Lobby, LobbyError, LobbyView};

verus! {

/// The lobbies of a server, each under its name, in the order in which they were
/// opened. No two lobbies have the same name.
pub struct Registry {
    lobbies: Vec<Lobby>,
}

/// What a list of stored lobbies stands for.
pub open spec fn lobbies_view(lobbies: Seq<Lobby>) -> Seq<LobbyView> {
    Seq::new(lobbies.len(), |i: int| lobbies[i]@)
}

/// Whether a lobby named `name` is among `lobbies`.
pub open spec fn has_lobby(lobbies: Seq<LobbyView>, name: Seq<char>) -> bool {
    exists|i: int| 0 <= i < lobbies.len() && (#[trigger] lobbies[i]).name == name
}

/// The place of the lobby named `name` among `lobbies`, where there is one.
pub open spec fn position(lobbies: Seq<LobbyView>, name: Seq<char>) -> int {
    choose|i: int| 0 <= i < lobbies.len() && (#[trigger] lobbies[i]).name == name
}

/// The lobbies have different names, each hosts a session of its kind, and each
/// session can take an action.
pub open spec fn valid(lobbies: Seq<LobbyView>) -> bool {
    &&& forall|i: int, j: int|
        0 <= i < lobbies.len() && 0 <= j < lobbies.len() && (#[trigger] lobbies[i]).name == (
        #[trigger] lobbies[j]).name ==> i == j
    &&& forall|i: int|
        0 <= i < lobbies.len() ==> (#[trigger] lobbies[i]).game.playable() && lobbies[i].game.game_type()
            == lobbies[i].game_type
}

/// The lobby that a request opens: no player yet, room for two, and the session in
/// which a game of the requested kind begins.
pub open spec fn opened(name: Seq<char>, game: GameType) -> LobbyView {
    LobbyView { name, players: 0, max_players: 2, game_type: game, game: GameView::initial(game) }
}

/// The lobbies after a lobby was asked for, and the answer: a lobby whose name is
/// taken is not opened.
pub open spec fn created(lobbies: Seq<LobbyView>, name: Seq<char>, game: GameType) -> (
    Seq<LobbyView>,
    Result<(), LobbyError>,
) {
    if has_lobby(lobbies, name) {
        (lobbies, Err(LobbyError::DuplicateLobby))
    } else {
        (lobbies.push(opened(name, game)), Ok(()))
    }
}

/// The lobby with another session.
pub open spec fn with_game(lobby: LobbyView, game: GameView) -> LobbyView {
    LobbyView { game, ..lobby }
}

/// The lobbies after `action` was sent to the lobby named `name`, and the answer.
/// Where the lobby exists and its session accepts the action, the new session is
/// stored and returned; in every other case nothing changes.
pub open spec fn acted(lobbies: Seq<LobbyView>, name: Seq<char>, action: Action, coin: bool) -> (
    Seq<LobbyView>,
    Result<GameView, LobbyError>,
) {
    if !has_lobby(lobbies, name) {
        (lobbies, Err(LobbyError::LobbyNotFound))
    } else {
        let i = position(lobbies, name);
        match lobbies[i].game.step(action, coin) {
            Ok(next) => (lobbies.update(i, with_game(lobbies[i], next)), Ok(next)),
            Err(e) => (lobbies, Err(e)),
        }
    }
}

/// The action by which `player` joins a game of the given kind.
pub open spec fn join_action(game_type: GameType, player: PlayerId) -> Action {
    match game_type {
        GameType::TicTacToe => Action::TicTacToe(tictactoe::PlayerAction::Join { player }),
        GameType::RockPaperScissors => Action::RockPaperScissors(rockpaperscissors::PlayerAction::Join { player }),
    }
}

/// The lobbies after `player` was sent to join the lobby named `name`, and the
/// answer: the player and the kind of game, where the session let the player in.
pub open spec fn joined(lobbies: Seq<LobbyView>, name: Seq<char>, player: PlayerId, coin: bool) -> (
    Seq<LobbyView>,
    Result<JoinResponse, LobbyError>,
) {
    if !has_lobby(lobbies, name) {
        (lobbies, Err(LobbyError::LobbyNotFound))
    } else {
        let game_type = lobbies[position(lobbies, name)].game_type;
        let (after, answer) = acted(lobbies, name, join_action(game_type, player), coin);
        match answer {
            Ok(_) => (after, Ok(JoinResponse { player, game_type })),
            Err(e) => (after, Err(e)),
        }
    }
}

/// The session of the lobby named `name`.
pub open spec fn state_of(lobbies: Seq<LobbyView>, name: Seq<char>) -> Result<GameView, LobbyError> {
    if has_lobby(lobbies, name) {
        Ok(lobbies[position(lobbies, name)].game)
    } else {
        Err(LobbyError::LobbyNotFound)
    }
}

impl View for Registry {
    type V = Seq<LobbyView>;

    closed spec fn view(&self) -> Seq<LobbyView> {
        lobbies_view(self.lobbies@)
    }
}

impl Registry {
    #[verifier::type_invariant]
    closed spec fn inv(&self) -> bool {
        valid(self@)
    }

    /// The registry without a lobby.
    pub fn new() -> (registry: Registry)
        ensures
            valid(registry@),
            registry@ == Seq::<LobbyView>::empty(),
    {
        let registry = Registry { lobbies: Vec::new() };
        assert(registry@ =~= Seq::<LobbyView>::empty());
        registry
    }

    /// Takes the lobbies out and leaves the registry empty.
    fn take_lobbies(&mut self) -> (lobbies: Vec<Lobby>)
        ensures
            lobbies_view(lobbies@) == old(self)@,
            lobbies == old(self).lobbies,
            final(self)@ == Seq::<LobbyView>::empty(),
    {
        let mut taken = Registry::new();
        core::mem::swap(self, &mut taken);
        taken.lobbies
    }

    /// The place of the lobby named `name`, if there is one.
    fn find(&self, name: &String) -> (found: Option<usize>)
        ensures
            found is Some <==> has_lobby(self@, name@),
            found is Some ==> found->0 == position(self@, name@) && found->0 < self.lobbies.len(),
    {
        proof {
            use_type_invariant(self);
        }
        let mut i: usize = 0;
        while i < self.lobbies.len()
            invariant
                valid(self@),
                i <= self.lobbies.len(),
                forall|k: int| 0 <= k < i ==> (#[trigger] self@[k]).name != name@,
            decreases self.lobbies.len() - i,
        {
            if self.lobbies[i].name == *name {
                proof {
                    assert(self@[i as int].name == name@);
                    let j = position(self@, name@);
                    assert(self@[j].name == self@[i as int].name);
                }
                return Some(i);
            }
            i += 1;
        }
        None
    }

    /// Opens a lobby of the requested name and kind, unless the name is taken.
    pub fn create_lobby(&mut self, lobby: CreateLobbyRequest) -> (result: Result<(), LobbyError>)
        ensures
            valid(final(self)@),
            (final(self)@, result) == created(old(self)@, lobby.name@, lobby.game),
    {
        proof {
            use_type_invariant(&*self);
        }
        if self.find(&lobby.name).is_some() {
            return Err(LobbyError::DuplicateLobby);
        }
        let ghost before = self@;
        let game_type = lobby.game;
        let mut lobbies = self.take_lobbies();
        lobbies.push(Lobby { name: lobby.name, players: 0, max_players: 2, game: Game::from(game_type), game_type });
        assert(lobbies_view(lobbies@) =~= before.push(opened(lobby.name@, lobby.game)));
        *self = Registry { lobbies };
        Ok(())
    }

    /// A copy of every lobby, in the order in which they were opened.
    pub fn list_games(&self) -> (lobbies: Vec<Lobby>)
        ensures
            lobbies_view(lobbies@) == self@,
    {
        let mut copy: Vec<Lobby> = Vec::new();
        let mut i: usize = 0;
        while i < self.lobbies.len()
            invariant
                i <= self.lobbies.len(),
                copy.len() == i,
                forall|k: int| 0 <= k < i ==> copy@[k]@ == self.lobbies@[k]@,
            decreases self.lobbies.len() - i,
        {
            copy.push(self.lobbies[i].clone());
            i += 1;
        }
        assert(lobbies_view(copy@) =~= self@);
        copy
    }

    /// Sends `body` to the lobby named `lobby`, with a given coin, which is looked at
    /// only when the second player joins a game of tic-tac-toe. Returns the session
    /// that follows, which the lobby now holds.
    pub fn perform_action_with(&mut self, lobby: String, body: Action, coin: bool) -> (result: Result<Game, LobbyError>)
        ensures
            valid(final(self)@),
            (final(self)@, outcome_view(result)) == acted(old(self)@, lobby@, body, coin),
    {
        proof {
            use_type_invariant(&*self);
        }
        let i = match self.find(&lobby) {
            Some(i) => i,
            None => {
                return Err(LobbyError::LobbyNotFound);
            },
        };
        let ghost before = self@;
        assert(before[i as int] == self.lobbies@[i as int]@);
        let new_state = match self.lobbies[i].game.apply_with(body, coin) {
            Ok(new_state) => new_state,
            Err(e) => {
                return Err(e);
            },
        };
        let answer = new_state.clone();
        let mut entry = self.lobbies[i].clone();
        entry.game = new_state;
        let mut lobbies = self.take_lobbies();
        lobbies.set(i, entry);
        proof {
            assert(lobbies_view(lobbies@) =~= before.update(i as int, with_game(before[i as int], answer@)));
            lemma_step_keeps_playable(before[i as int].game, body, coin);
        }
        *self = Registry { lobbies };
        Ok(answer)
    }

    /// Sends `body` to the lobby named `lobby`. A coin is flipped for the case that
    /// the action starts a game of tic-tac-toe.
    pub fn perform_action(&mut self, lobby: String, body: Action) -> (result: Result<Game, LobbyError>)
        ensures
            valid(final(self)@),
            exists|coin: bool| (final(self)@, outcome_view(result)) == #[trigger] acted(old(self)@, lobby@, body, coin),
    {
        let coin = tictactoe::flip_coin();
        self.perform_action_with(lobby, body, coin)
    }

    /// Lets `player` join the lobby named `lobby`, with a given coin.
    pub fn join_game_with(&mut self, lobby: String, player: PlayerId, coin: bool) -> (result: Result<JoinResponse, LobbyError>)
        ensures
            valid(final(self)@),
            (final(self)@, result) == joined(old(self)@, lobby@, player, coin),
    {
        proof {
            use_type_invariant(&*self);
        }
        let i = match self.find(&lobby) {
            Some(i) => i,
            None => {
                return Err(LobbyError::LobbyNotFound);
            },
        };
        assert(self@[i as int] == self.lobbies@[i as int]@);
        let game_type = self.lobbies[i].game_type;
        let action = match game_type {
            GameType::TicTacToe => Action::TicTacToe(tictactoe::PlayerAction::Join { player }),
            GameType::RockPaperScissors => Action::RockPaperScissors(rockpaperscissors::PlayerAction::Join { player }),
        };
        match self.perform_action_with(lobby, action, coin) {
            Ok(_) => Ok(JoinResponse { player, game_type }),
            Err(e) => Err(e),
        }
    }

    /// Mints an identifier for a new player and lets the player join the lobby named
    /// `lobby`. The identifier and the coin are random.
    pub fn join_game(&mut self, lobby: String) -> (result: Result<JoinResponse, LobbyError>)
        ensures
            valid(final(self)@),
            exists|player: PlayerId, coin: bool|
                (final(self)@, result) == #[trigger] joined(old(self)@, lobby@, player, coin),
    {
        let player = PlayerId::fresh();
        let coin = tictactoe::flip_coin();
        self.join_game_with(lobby, player, coin)
    }

    /// A copy of the session of the lobby named `lobby`.
    pub fn get_state(&self, lobby: String) -> (result: Result<Game, LobbyError>)
        ensures
            outcome_view(result) == state_of(self@, lobby@),
    {
        match self.find(&lobby) {
            Some(i) => {
                assert(self@[i as int] == self.lobbies@[i as int]@);
                Ok(self.lobbies[i].game.clone())
            },
            None => Err(LobbyError::LobbyNotFound),
        }
    }
}

/// A session that accepts an action can take the next one, and stays of its kind.
pub proof fn lemma_step_keeps_playable(game: GameView, action: Action, coin: bool)
    requires
        game.playable(),
        game.step(action, coin) is Ok,
    ensures
        game.step(action, coin)->Ok_0.playable(),
        game.step(action, coin)->Ok_0.game_type() == game.game_type(),
{
    match game {
        GameView::TicTacToe(session) => {
            if let Action::TicTacToe(a) = action {
                tictactoe::lemma_step_keeps_playable(session, a, coin);
            }
        },
        GameView::RockPaperScissors(session) => {},
    }
}


/// Asking a lobby that does not exist for anything fails with `LobbyNotFound` and
/// leaves every lobby as it was.
pub proof fn lemma_unknown_lobby(lobbies: Seq<LobbyView>, name: Seq<char>, action: Action, player: PlayerId, coin: bool)
    requires
        !has_lobby(lobbies, name),
    ensures
        acted(lobbies, name, action, coin) == (lobbies, Err::<GameView, LobbyError>(LobbyError::LobbyNotFound)),
        joined(lobbies, name, player, coin) == (lobbies, Err::<JoinResponse, LobbyError>(LobbyError::LobbyNotFound)),
        state_of(lobbies, name) == Err::<GameView, LobbyError>(LobbyError::LobbyNotFound),
{
}

/// An action that is refused, for whatever reason, changes nothing; an action that
/// is accepted changes the session of the lobby it was sent to and nothing else:
/// no other lobby, no name, no kind of game, and not the number of lobbies.
pub proof fn lemma_action_touches_one_session(lobbies: Seq<LobbyView>, name: Seq<char>, action: Action, coin: bool)
    ensures
        acted(lobbies, name, action, coin).1 is Err ==> acted(lobbies, name, action, coin).0 == lobbies,
        acted(lobbies, name, action, coin).0.len() == lobbies.len(),
        forall|i: int|
            0 <= i < lobbies.len() ==> (#[trigger] acted(lobbies, name, action, coin).0[i]).name == lobbies[i].name
                && acted(lobbies, name, action, coin).0[i].game_type == lobbies[i].game_type,
        forall|i: int|
            0 <= i < lobbies.len() && lobbies[i].name != name ==> #[trigger] acted(lobbies, name, action, coin).0[i]
                == lobbies[i],
{
}

/// The session that an accepted action returns is the one that the lobby holds
/// afterwards.
pub proof fn lemma_accepted_action_is_stored(lobbies: Seq<LobbyView>, name: Seq<char>, action: Action, coin: bool)
    requires
        valid(lobbies),
        acted(lobbies, name, action, coin).1 is Ok,
    ensures
        state_of(acted(lobbies, name, action, coin).0, name) == acted(lobbies, name, action, coin).1,
{
    let i = position(lobbies, name);
    let after = acted(lobbies, name, action, coin).0;
    assert(after[i].name == name);
    let j = position(after, name);
    assert(after[j].name == name);
    assert(lobbies[j].name == lobbies[i].name);
}

/// Opening a lobby and sending an action keep the lobbies valid.
pub proof fn lemma_registry_stays_valid(lobbies: Seq<LobbyView>, name: Seq<char>, game: GameType, action: Action, coin: bool)
    requires
        valid(lobbies),
    ensures
        valid(created(lobbies, name, game).0),
        valid(acted(lobbies, name, action, coin).0),
{
    if !has_lobby(lobbies, name) {
        let after = lobbies.push(opened(name, game));
        assert forall|i: int, j: int|
            0 <= i < after.len() && 0 <= j < after.len() && (#[trigger] after[i]).name == (#[trigger] after[j]).name
            implies i == j by {
            if i < lobbies.len() {
                assert(after[i] == lobbies[i]);
            }
            if j < lobbies.len() {
                assert(after[j] == lobbies[j]);
            }
        }
        assert forall|i: int| 0 <= i < after.len() implies (#[trigger] after[i]).game.playable() && after[i].game.game_type()
            == after[i].game_type by {
            if i < lobbies.len() {
                assert(after[i] == lobbies[i]);
            }
        }
    } else {
        let i = position(lobbies, name);
        if lobbies[i].game.step(action, coin) is Ok {
            lemma_step_keeps_playable(lobbies[i].game, action, coin);
            let after = acted(lobbies, name, action, coin).0;
            assert forall|a: int, b: int|
                0 <= a < after.len() && 0 <= b < after.len() && (#[trigger] after[a]).name == (#[trigger] after[b]).name
                implies a == b by {
                assert(after[a].name == lobbies[a].name);
                assert(after[b].name == lobbies[b].name);
            }
            assert forall|k: int| 0 <= k < after.len() implies (#[trigger] after[k]).game.playable()
                && after[k].game.game_type() == after[k].game_type by {
                if k != i {
                    assert(after[k] == lobbies[k]);
                }
            }
        }
    }
}

/// An action leaves every lobby under its name and in its place.
pub proof fn lemma_action_keeps_places(lobbies: Seq<LobbyView>, name: Seq<char>, action: Action, coin: bool, other: Seq<char>)
    requires
        valid(lobbies),
    ensures
        has_lobby(acted(lobbies, name, action, coin).0, other) == has_lobby(lobbies, other),
        has_lobby(lobbies, other) ==> position(acted(lobbies, name, action, coin).0, other) == position(lobbies, other),
{
    let after = acted(lobbies, name, action, coin).0;
    lemma_action_touches_one_session(lobbies, name, action, coin);
    lemma_registry_stays_valid(lobbies, name, GameType::TicTacToe, action, coin);
    if has_lobby(lobbies, other) {
        let i = position(lobbies, other);
        assert(after[i].name == other);
        let j = position(after, other);
        assert(after[j].name == after[i].name);
    }
    if has_lobby(after, other) {
        let j = position(after, other);
        assert(lobbies[j].name == other);
    }
}

/// Lobbies of different names do not touch each other: two actions that are sent to
/// two of them get the same answers and leave the same lobbies behind, whichever is
/// applied first.
pub proof fn lemma_distinct_lobbies_are_independent(
    lobbies: Seq<LobbyView>,
    name1: Seq<char>,
    action1: Action,
    coin1: bool,
    name2: Seq<char>,
    action2: Action,
    coin2: bool,
)
    requires
        valid(lobbies),
        name1 != name2,
    ensures
        acted(acted(lobbies, name1, action1, coin1).0, name2, action2, coin2).1 == acted(lobbies, name2, action2, coin2).1,
        acted(acted(lobbies, name2, action2, coin2).0, name1, action1, coin1).1 == acted(lobbies, name1, action1, coin1).1,
        acted(acted(lobbies, name1, action1, coin1).0, name2, action2, coin2).0 == acted(
            acted(lobbies, name2, action2, coin2).0,
            name1,
            action1,
            coin1,
        ).0,
{
    let after1 = acted(lobbies, name1, action1, coin1).0;
    let after2 = acted(lobbies, name2, action2, coin2).0;
    lemma_action_keeps_places(lobbies, name1, action1, coin1, name2);
    lemma_action_keeps_places(lobbies, name2, action2, coin2, name1);
    lemma_action_touches_one_session(lobbies, name1, action1, coin1);
    lemma_action_touches_one_session(lobbies, name2, action2, coin2);
    if has_lobby(lobbies, name1) && has_lobby(lobbies, name2) {
        let i = position(lobbies, name1);
        let j = position(lobbies, name2);
        assert(lobbies[i].name == name1 && lobbies[j].name == name2);
        assert(i != j);
        assert(after1[j] == lobbies[j]);
        assert(after2[i] == lobbies[i]);
        let both = acted(after1, name2, action2, coin2).0;
        let other = acted(after2, name1, action1, coin1).0;
        assert(both =~= other);
    }
}

/// A token sent out of turn to a running game of tic-tac-toe is refused as
/// `NotYourTurn` and changes nothing, so that sending it again meets the same
/// lobbies and gets the same answer.
pub proof fn lemma_out_of_turn_changes_nothing(
    lobbies: Seq<LobbyView>,
    name: Seq<char>,
    player: PlayerId,
    position: (usize, usize),
    coin: bool,
)
    requires
        has_lobby(lobbies, name),
        state_of(lobbies, name)->Ok_0 is TicTacToe,
        state_of(lobbies, name)->Ok_0->TicTacToe_0 is WaitingForInput,
        state_of(lobbies, name)->Ok_0->TicTacToe_0->active_player != player,
    ensures
        acted(lobbies, name, place_token(player, position), coin) == (lobbies, not_your_turn()),
{
}

/// The action by which `player` puts a token on `position` in a lobby of
/// tic-tac-toe.
pub open spec fn place_token(player: PlayerId, position: (usize, usize)) -> Action {
    Action::TicTacToe(tictactoe::PlayerAction::PlaceToken { player, position })
}

/// The answer to a token that was sent out of turn.
pub open spec fn not_your_turn() -> Result<GameView, LobbyError> {
    Err(LobbyError::TicTacToe(tictactoe::InvalidAction::NotYourTurn))
}

} // verus!
