//! Rock-paper-scissors for two players: the first with two won rounds wins.

use vstd::prelude::*;
use crate::bijection::{built, left_of, lemma_built_with_listed, listed_for, one_to_one, pair_inserted, right_of, PlayerMap};
use crate::player::{copy_players, is_member, PlayerId};

verus! {

/// What a player shows in a round.
#[derive(Copy, Clone, Debug, Hash, PartialEq, Eq, Structural)]
pub enum Move {
    Rock,
    Paper,
    Scissors,
}

/// What a player asks of a session.
#[derive(Copy, Clone, Debug)]
pub enum PlayerAction {
    Join { player: PlayerId },
    Move { player: PlayerId, action: Move },
}

/// An action that the session refuses.
#[derive(Clone, Copy, Debug, PartialEq, Eq, Structural)]
pub enum InvalidAction {
    CantJoinTwice,
    StillWaitingForPlayers,
    GameAlreadyInPlay,
    InvalidPlayer,
}

/// The move that a code stands for.
pub open spec fn move_of(code: u8) -> Move {
    if code == 0 {
        Move::Rock
    } else if code == 1 {
        Move::Paper
    } else {
        Move::Scissors
    }
}

/// Which player made which move in a round: a two-way map, read from either side.
/// Two players who made the same move cannot both stand in it.
#[derive(Debug)]
pub struct Moves {
    map: PlayerMap,
}

impl View for Moves {
    type V = Map<PlayerId, Move>;

    closed spec fn view(&self) -> Map<PlayerId, Move> {
        Map::new(|p: PlayerId| self.map@.contains_key(p), |p: PlayerId| move_of(self.map@[p]))
    }
}

impl Moves {
    #[verifier::type_invariant]
    closed spec fn inv(&self) -> bool {
        forall|p: PlayerId| self.map@.contains_key(p) ==> #[trigger] self.map@[p] <= 2
    }

    /// The map in which no player has a move.
    pub fn new() -> (moves: Moves)
        ensures
            moves@ == Map::<PlayerId, Move>::empty(),
    {
        let moves = Moves { map: PlayerMap::new() };
        assert(moves@ =~= Map::<PlayerId, Move>::empty());
        moves
    }

    /// Records that `player` made `action`. The move that the player had, and the
    /// player who had the move, lose theirs.
    pub fn insert(&mut self, player: PlayerId, action: Move)
        ensures
            final(self)@ == pair_inserted(old(self)@, player, action),
    {
        let ghost before = self@;
        let mut taken = Moves::new();
        core::mem::swap(self, &mut taken);
        proof {
            use_type_invariant(&taken);
        }
        let updated = Moves { map: taken.map.with_pair(player, move_code(action)) };
        assert(updated@ =~= pair_inserted(before, player, action));
        *self = updated;
    }

    /// The move of `player`, if the player has one.
    pub fn get_by_left(&self, player: &PlayerId) -> (action: Option<Move>)
        ensures
            action == right_of(self@, *player),
    {
        match self.map.get_by_left(*player) {
            Some(code) => Some(
                if code == 0 {
                    Move::Rock
                } else if code == 1 {
                    Move::Paper
                } else {
                    Move::Scissors
                },
            ),
            None => None,
        }
    }

    /// The player who made `action`, if any did; no other player made it.
    pub fn get_by_right(&self, action: &Move) -> (player: Option<PlayerId>)
        ensures
            player == left_of(self@, *action),
            forall|q: PlayerId| self@.contains_key(q) && #[trigger] self@[q] == *action ==> player == Some(q),
    {
        proof {
            use_type_invariant(self);
        }
        let code = move_code(*action);
        let found = self.map.get_by_right(code);
        proof {
            if left_of(self@, *action) is Some {
                let q = choose|q: PlayerId| self@.contains_key(q) && #[trigger] self@[q] == *action;
                assert(self.map@[q] <= 2);
                assert(self.map@.contains_key(q) && self.map@[q] == code);
                assert(found == Some(q));
            } else if found is Some {
                let p = found->0;
                assert(self@.contains_key(p) && self@[p] == *action);
            }
        }
        found
    }

    /// The pairs of the map as a list: the player of `Rock` first, where there is
    /// one, then the player of `Paper`, then the player of `Scissors`.
    pub fn pairs(&self) -> (pairs: Vec<(PlayerId, Move)>)
        ensures
            pairs@ == listed(self@),
            built(pairs@) == self@,
            one_to_one(self@),
    {
        let mut pairs: Vec<(PlayerId, Move)> = Vec::new();
        if let Some(player) = self.get_by_right(&Move::Rock) {
            pairs.push((player, Move::Rock));
        }
        if let Some(player) = self.get_by_right(&Move::Paper) {
            pairs.push((player, Move::Paper));
        }
        if let Some(player) = self.get_by_right(&Move::Scissors) {
            pairs.push((player, Move::Scissors));
        }
        proof {
            assert(pairs@ =~= listed(self@));
            assert forall|a: PlayerId, b: PlayerId|
                self@.contains_key(a) && self@.contains_key(b) && #[trigger] self@[a] == #[trigger] self@[b] implies a
                == b by {
                assert(self@[a] == Move::Rock || self@[a] == Move::Paper || self@[a] == Move::Scissors);
            }
            lemma_listed_builds(self@);
        }
        pairs
    }

    /// The map that comes of inserting the pairs of the list in their order.
    pub fn from_pairs(pairs: &Vec<(PlayerId, Move)>) -> (moves: Moves)
        ensures
            moves@ == built(pairs@),
    {
        let mut moves = Moves::new();
        let mut i: usize = 0;
        while i < pairs.len()
            invariant
                i <= pairs.len(),
                moves@ == built(pairs@.take(i as int)),
            decreases pairs.len() - i,
        {
            assert(pairs@.take(i + 1).drop_last() =~= pairs@.take(i as int));
            let (player, action) = pairs[i];
            moves.insert(player, action);
            i += 1;
        }
        assert(pairs@.take(pairs.len() as int) =~= pairs@);
        moves
    }
}

/// The pairs of a map of moves as a list: the pair of `Rock` first, then that of
/// `Paper`, then that of `Scissors`.
pub open spec fn listed(moves: Map<PlayerId, Move>) -> Seq<(PlayerId, Move)> {
    listed_for(moves, Move::Rock) + listed_for(moves, Move::Paper) + listed_for(moves, Move::Scissors)
}

/// A map of moves that is written out as the list of its pairs and built again from
/// that list is the map that it was.
pub proof fn lemma_listed_builds(moves: Map<PlayerId, Move>)
    requires
        one_to_one(moves),
    ensures
        built(listed(moves)) == moves,
{
    let rock = listed_for(moves, Move::Rock);
    let paper = listed_for(moves, Move::Paper);
    assert forall|p: PlayerId| #[trigger] moves.dom().contains(p) implies left_of(moves, moves[p]) == Some(p) by {
        crate::bijection::lemma_left_of_unique(moves, p, moves[p]);
    }
    assert forall|action: Move| left_of(moves, action) is Some implies moves.dom().contains(
        (#[trigger] left_of(moves, action))->0,
    ) && moves[left_of(moves, action)->0] == action by {
        let p = choose|p: PlayerId| moves.contains_key(p) && #[trigger] moves[p] == action;
        assert(moves.contains_key(p) && moves[p] == action);
    }
    let none = Seq::<(PlayerId, Move)>::empty();
    assert(built(none) =~= Map::<PlayerId, Move>::empty());
    assert(none + rock =~= rock);
    lemma_built_with_listed(none, moves, Move::Rock);
    lemma_built_with_listed(rock, moves, Move::Paper);
    lemma_built_with_listed(rock + paper, moves, Move::Scissors);
    let first = Map::new(|p: PlayerId| moves.dom().contains(p) && moves[p] == Move::Rock, |p: PlayerId| moves[p]);
    let second = Map::new(
        |p: PlayerId| moves.dom().contains(p) && moves[p] != Move::Scissors,
        |p: PlayerId| moves[p],
    );
    assert(built(rock) =~= first);
    assert(built(rock + paper) =~= second);
    assert(built(rock + paper + listed_for(moves, Move::Scissors)) =~= moves);
}

impl Clone for Moves {
    /// A copy with the same pairs.
    fn clone(&self) -> (moves: Moves)
        ensures
            moves@ == self@,
    {
        proof {
            use_type_invariant(self);
        }
        let moves = Moves { map: self.map.clone() };
        assert(moves@ =~= self@);
        moves
    }
}

/// The code under which a move is kept in the two-way map.
fn move_code(action: Move) -> (code: u8)
    ensures
        code <= 2,
        move_of(code) == action,
{
    match action {
        Move::Rock => 0,
        Move::Paper => 1,
        Move::Scissors => 2,
    }
}

/// One completed round.
#[derive(Debug)]
pub struct HistoryEntry {
    pub moves: Moves,
    pub winner: Option<PlayerId>,
}

/// What a completed round is, mathematically.
pub struct Round {
    pub moves: Map<PlayerId, Move>,
    pub winner: Option<PlayerId>,
}

impl View for HistoryEntry {
    type V = Round;

    open spec fn view(&self) -> Round {
        Round { moves: self.moves@, winner: self.winner }
    }
}

impl Clone for HistoryEntry {
    /// A copy that stands for the same round.
    fn clone(&self) -> (entry: HistoryEntry)
        ensures
            entry@ == self@,
    {
        HistoryEntry { moves: self.moves.clone(), winner: self.winner }
    }
}

/// The rounds that a stored history stands for.
pub open spec fn rounds_of(history: Seq<HistoryEntry>) -> Seq<Round> {
    Seq::new(history.len(), |i: int| history[i]@)
}

/// The state of one session of rock-paper-scissors.
#[derive(Debug)]
pub enum GameState {
    WaitingForPlayers {
        players: Vec<PlayerId>,
    },
    WaitingForInput {
        players: Vec<PlayerId>,
        /// The number of the round that is being played, from 0.
        round: usize,
        /// The move that was made in this round and waits for the other player's.
        input: Option<(PlayerId, Move)>,
        /// The completed rounds, oldest first.
        history: Vec<HistoryEntry>,
    },
    GameOver {
        winner: PlayerId,
        history: Vec<HistoryEntry>,
    },
}

/// What a session is, mathematically.
pub enum Session {
    WaitingForPlayers { players: Seq<PlayerId> },
    WaitingForInput {
        players: Seq<PlayerId>,
        round: nat,
        input: Option<(PlayerId, Move)>,
        history: Seq<Round>,
    },
    GameOver { winner: PlayerId, history: Seq<Round> },
}

impl View for GameState {
    type V = Session;

    open spec fn view(&self) -> Session {
        match *self {
            GameState::WaitingForPlayers { players } => Session::WaitingForPlayers { players: players@ },
            GameState::WaitingForInput { players, round, input, history } => Session::WaitingForInput {
                players: players@,
                round: round as nat,
                input,
                history: rounds_of(history@),
            },
            GameState::GameOver { winner, history } => Session::GameOver { winner, history: rounds_of(history@) },
        }
    }
}

/// A copy of a stored history.
pub fn copy_history(history: &Vec<HistoryEntry>) -> (copy: Vec<HistoryEntry>)
    ensures
        copy.len() == history.len(),
        rounds_of(copy@) == rounds_of(history@),
{
    let mut copy: Vec<HistoryEntry> = Vec::new();
    let mut i: usize = 0;
    while i < history.len()
        invariant
            i <= history.len(),
            copy.len() == i,
            forall|k: int| 0 <= k < i ==> copy@[k]@ == history@[k]@,
        decreases history.len() - i,
    {
        copy.push(history[i].clone());
        i += 1;
    }
    assert(rounds_of(copy@) =~= rounds_of(history@));
    copy
}

impl Clone for GameState {
    /// A copy that stands for the same session.
    fn clone(&self) -> (state: GameState)
        ensures
            state@ == self@,
    {
        match self {
            GameState::WaitingForPlayers { players } => GameState::WaitingForPlayers {
                players: copy_players(players),
            },
            GameState::WaitingForInput { players, round, input, history } => GameState::WaitingForInput {
                players: copy_players(players),
                round: *round,
                input: *input,
                history: copy_history(history),
            },
            GameState::GameOver { winner, history } => GameState::GameOver {
                winner: *winner,
                history: copy_history(history),
            },
        }
    }
}

impl Default for GameState {
    fn default() -> (state: GameState)
        ensures
            state@ == Session::fresh(),
    {
        GameState::WaitingForPlayers { players: Vec::new() }
    }
}

/// Rock beats scissors, paper beats rock, scissors beat paper.
pub open spec fn beats(a: Move, b: Move) -> bool {
    ||| a == Move::Rock && b == Move::Scissors
    ||| a == Move::Paper && b == Move::Rock
    ||| a == Move::Scissors && b == Move::Paper
}

/// Who wins the round in which `p1` shows `m1` and `p2` shows `m2`; nobody when the
/// moves are the same.
pub open spec fn round_winner(p1: PlayerId, m1: Move, p2: PlayerId, m2: Move) -> Option<PlayerId> {
    if beats(m1, m2) {
        Some(p1)
    } else if beats(m2, m1) {
        Some(p2)
    } else {
        None
    }
}

/// The number of rounds of `history` that `player` has won.
pub open spec fn wins(history: Seq<Round>, player: PlayerId) -> nat
    decreases history.len(),
{
    if history.len() == 0 {
        0
    } else {
        let earlier = wins(history.drop_last(), player);
        if history.last().winner == Some(player) {
            earlier + 1
        } else {
            earlier
        }
    }
}

/// The round that is completed when `p2` answers the move `m1` of `p1` with `m2`.
pub open spec fn round_of(p1: PlayerId, m1: Move, p2: PlayerId, m2: Move) -> Round {
    Round {
        moves: pair_inserted(pair_inserted(Map::<PlayerId, Move>::empty(), p1, m1), p2, m2),
        winner: round_winner(p1, m1, p2, m2),
    }
}

impl Session {
    /// The session that nobody has joined yet.
    pub open spec fn fresh() -> Session {
        Session::WaitingForPlayers { players: Seq::empty() }
    }

    /// While the game runs, the round counter is the number of completed rounds. A
    /// session must be playable for an action to be applied to it.
    pub open spec fn playable(self) -> bool {
        match self {
            Session::WaitingForInput { round, history, .. } => round == history.len(),
            _ => true,
        }
    }

    /// What `score` counts: nothing while players are awaited, else the rounds of
    /// `history` that `player` has won.
    pub open spec fn score(self, player: PlayerId, history: Seq<Round>) -> nat {
        match self {
            Session::WaitingForPlayers { .. } => 0,
            _ => wins(history, player),
        }
    }

    /// The transition function: the session after `action`, or the reason why the
    /// action is refused.
    pub open spec fn step(self, action: PlayerAction) -> Result<Session, InvalidAction> {
        match self {
            Session::WaitingForPlayers { players } => match action {
                PlayerAction::Join { player } => {
                    if players.contains(player) {
                        Err(InvalidAction::CantJoinTwice)
                    } else if players.len() == 0 {
                        Ok(Session::WaitingForPlayers { players: seq![player] })
                    } else {
                        Ok(
                            Session::WaitingForInput {
                                players: players.push(player),
                                round: 0,
                                input: None,
                                history: Seq::empty(),
                            },
                        )
                    }
                },
                PlayerAction::Move { .. } => Err(InvalidAction::StillWaitingForPlayers),
            },
            Session::WaitingForInput { players, round, input, history } => match action {
                PlayerAction::Move { player, action } => {
                    if !players.contains(player) {
                        Err(InvalidAction::InvalidPlayer)
                    } else {
                        match input {
                            None => Ok(
                                Session::WaitingForInput { players, round, input: Some((player, action)), history },
                            ),
                            Some((p1, m1)) => {
                                if p1 == player {
                                    Ok(self)
                                } else {
                                    let after = history.push(round_of(p1, m1, player, action));
                                    if wins(after, p1) == 2 {
                                        Ok(Session::GameOver { winner: p1, history: after })
                                    } else if wins(after, player) == 2 {
                                        Ok(Session::GameOver { winner: player, history: after })
                                    } else {
                                        Ok(
                                            Session::WaitingForInput {
                                                players,
                                                round: round + 1,
                                                input: None,
                                                history: after,
                                            },
                                        )
                                    }
                                }
                            },
                        }
                    }
                },
                PlayerAction::Join { .. } => Err(InvalidAction::GameAlreadyInPlay),
            },
            Session::GameOver { .. } => Ok(self),
        }
    }
}

/// What the result of a transition is, mathematically.
pub open spec fn result_view(result: Result<GameState, InvalidAction>) -> Result<Session, InvalidAction> {
    match result {
        Ok(state) => Ok(state@),
        Err(e) => Err(e),
    }
}

/// The winner of one round, by the cycle in which rock beats scissors, scissors beat
/// paper and paper beats rock.
pub fn rock_paper_scissors(p1: &PlayerId, p1move: &Move, p2: &PlayerId, p2move: &Move) -> (winner: Option<PlayerId>)
    ensures
        winner == round_winner(*p1, *p1move, *p2, *p2move),
{
    match p1move {
        Move::Rock => match p2move {
            Move::Rock => None,
            Move::Paper => Some(*p2),
            Move::Scissors => Some(*p1),
        },
        Move::Paper => match p2move {
            Move::Rock => Some(*p1),
            Move::Paper => None,
            Move::Scissors => Some(*p2),
        },
        Move::Scissors => match p2move {
            Move::Rock => Some(*p2),
            Move::Paper => Some(*p1),
            Move::Scissors => None,
        },
    }
}

/// The number of rounds of `history` that `player` has won.
fn count_wins(player: PlayerId, history: &Vec<HistoryEntry>) -> (count: usize)
    ensures
        count == wins(rounds_of(history@), player),
{
    let ghost rounds = rounds_of(history@);
    let mut count: usize = 0;
    let mut i: usize = 0;
    while i < history.len()
        invariant
            i <= history.len(),
            rounds == rounds_of(history@),
            count <= i,
            count == wins(rounds.take(i as int), player),
        decreases history.len() - i,
    {
        proof {
            assert(rounds.take(i + 1).drop_last() =~= rounds.take(i as int));
            assert(rounds.take(i + 1).last() == history@[i as int]@);
        }
        match history[i].winner {
            Some(p) => {
                if p == player {
                    count += 1;
                }
            },
            None => {},
        }
        i += 1;
    }
    assert(rounds.take(history.len() as int) =~= rounds);
    count
}

impl GameState {
    /// Whether an action can be applied: while the game runs, the round counter is
    /// the number of completed rounds.
    pub fn is_playable(&self) -> (ok: bool)
        ensures
            ok == self@.playable(),
    {
        match self {
            GameState::WaitingForInput { round, history, .. } => *round == history.len(),
            _ => true,
        }
    }

    /// How many rounds of `history` `player` has won, as this session counts them:
    /// none while it still waits for players.
    pub fn score(&self, player: PlayerId, history: &Vec<HistoryEntry>) -> (count: usize)
        ensures
            count == self@.score(player, rounds_of(history@)),
    {
        match self {
            GameState::WaitingForPlayers { .. } => 0,
            GameState::WaitingForInput { .. } => count_wins(player, history),
            GameState::GameOver { .. } => count_wins(player, history),
        }
    }

    /// Applies `action` to this session and returns the session that follows, or the
    /// reason why the action is refused.
    pub fn apply(&self, action: PlayerAction) -> (result: Result<GameState, InvalidAction>)
        requires
            self@.playable(),
        ensures
            result_view(result) == self@.step(action),
    {
        match self {
            GameState::WaitingForPlayers { players } => match action {
                PlayerAction::Join { player: new_player } => {
                    if is_member(players, new_player) {
                        return Err(InvalidAction::CantJoinTwice);
                    }
                    if players.len() == 0 {
                        let mut joined: Vec<PlayerId> = Vec::new();
                        joined.push(new_player);
                        assert(joined@ =~= seq![new_player]);
                        Ok(GameState::WaitingForPlayers { players: joined })
                    } else {
                        let mut players = copy_players(players);
                        players.push(new_player);
                        let history: Vec<HistoryEntry> = Vec::new();
                        assert(rounds_of(history@) =~= Seq::<Round>::empty());
                        Ok(GameState::WaitingForInput { players, round: 0, input: None, history })
                    }
                },
                _ => Err(InvalidAction::StillWaitingForPlayers),
            },
            GameState::WaitingForInput { players, round, input, history } => match action {
                PlayerAction::Move { player, action } => {
                    if !is_member(players, player) {
                        return Err(InvalidAction::InvalidPlayer);
                    }
                    match input {
                        None => Ok(
                            GameState::WaitingForInput {
                                players: copy_players(players),
                                round: *round,
                                input: Some((player, action)),
                                history: copy_history(history),
                            },
                        ),
                        Some((p1, p1move)) => {
                            let p2 = player;
                            let p2move = action;
                            if *p1 == p2 {
                                return Ok(self.clone());
                            }
                            let round_winner = rock_paper_scissors(p1, p1move, &p2, &p2move);
                            let mut moves = Moves::new();
                            moves.insert(*p1, *p1move);
                            moves.insert(p2, p2move);
                            let mut history = copy_history(history);
                            assert(history.len() == *round);
                            let ghost before = rounds_of(history@);
                            history.push(HistoryEntry { winner: round_winner, moves });
                            assert(rounds_of(history@) =~= before.push(round_of(*p1, *p1move, p2, p2move)));
                            if self.score(*p1, &history) == 2 || self.score(p2, &history) == 2 {
                                let winner = if self.score(*p1, &history) == 2 {
                                    *p1
                                } else {
                                    p2
                                };
                                Ok(GameState::GameOver { winner, history })
                            } else {
                                let completed = history.len();
                                Ok(
                                    GameState::WaitingForInput {
                                        players: copy_players(players),
                                        round: completed,
                                        input: None,
                                        history,
                                    },
                                )
                            }
                        },
                    }
                },
                _ => Err(InvalidAction::GameAlreadyInPlay),
            },
            GameState::GameOver { .. } => Ok(self.clone()),
        }
    }
}


/// An accepted action, with the session that follows.
pub open spec fn accepted(next: Session) -> Result<Session, InvalidAction> {
    Ok(next)
}

/// A refused action, with the reason.
pub open spec fn refused(reason: InvalidAction) -> Result<Session, InvalidAction> {
    Err(reason)
}

/// The action by which `player` joins.
pub open spec fn join(player: PlayerId) -> PlayerAction {
    PlayerAction::Join { player }
}

/// The action by which `player` shows `action`.
pub open spec fn show(player: PlayerId, action: Move) -> PlayerAction {
    PlayerAction::Move { player, action }
}

/// The phases of a session, in the order in which they follow each other.
pub open spec fn phase(session: Session) -> nat {
    match session {
        Session::WaitingForPlayers { .. } => 0,
        Session::WaitingForInput { .. } => 1,
        Session::GameOver { .. } => 2,
    }
}

/// The number of completed rounds of a session.
pub open spec fn completed(session: Session) -> nat {
    match session {
        Session::WaitingForPlayers { .. } => 0,
        Session::WaitingForInput { history, .. } => history.len(),
        Session::GameOver { history, .. } => history.len(),
    }
}

/// Every round of `history` was won by `a`, by `b` or by nobody.
pub open spec fn played_between(history: Seq<Round>, a: PlayerId, b: PlayerId) -> bool {
    forall|i: int|
        0 <= i < history.len() ==> {
            let w = (#[trigger] history[i]).winner;
            w == None::<PlayerId> || w == Some(a) || w == Some(b)
        }
}

impl Session {
    /// The player whose move waits for the other player's, if there is one.
    pub open spec fn pending(self) -> Option<PlayerId> {
        match self {
            Session::WaitingForInput { input: Some((player, _)), .. } => Some(player),
            _ => None,
        }
    }

    /// What every session has that began fresh and was changed by `step` alone. At
    /// most one player waits. A running game has two different players, its round
    /// counter is the number of completed rounds, a pending move is a player's, and
    /// nobody has two wins yet. A finished game was won by one of its rounds'
    /// players, with exactly two wins, while the other has fewer.
    pub open spec fn wf(self) -> bool {
        match self {
            Session::WaitingForPlayers { players } => players.len() <= 1,
            Session::WaitingForInput { players, round, input, history } => {
                &&& players.len() == 2
                &&& players[0] != players[1]
                &&& round == history.len()
                &&& (self.pending() is Some ==> players.contains(self.pending()->0))
                &&& played_between(history, players[0], players[1])
                &&& wins(history, players[0]) < 2
                &&& wins(history, players[1]) < 2
            },
            Session::GameOver { winner, history } => {
                &&& wins(history, winner) == 2
                &&& forall|p: PlayerId| p != winner ==> wins(history, p) < 2
            },
        }
    }
}

/// A player who won no round of `history` has no wins.
pub proof fn lemma_no_rounds_no_wins(history: Seq<Round>, player: PlayerId)
    requires
        forall|i: int| 0 <= i < history.len() ==> (#[trigger] history[i]).winner != Some(player),
    ensures
        wins(history, player) == 0,
    decreases history.len(),
{
    if history.len() > 0 {
        assert(history.last() == history[history.len() - 1]);
        assert forall|i: int| 0 <= i < history.drop_last().len() implies (#[trigger] history.drop_last()[i]).winner
            != Some(player) by {
            assert(history.drop_last()[i] == history[i]);
        }
        lemma_no_rounds_no_wins(history.drop_last(), player);
    }
}

/// One more round adds one win for its winner and none for anybody else.
pub proof fn lemma_wins_after_round(history: Seq<Round>, round: Round, player: PlayerId)
    ensures
        wins(history.push(round), player) == wins(history, player) + (if round.winner == Some(player) {
            1nat
        } else {
            0nat
        }),
{
    assert(history.push(round).drop_last() =~= history);
    assert(history.push(round).last() == round);
}

/// An accepted action keeps a well-formed session well-formed. It never leads back
/// to an earlier phase and never takes a completed round away; the game ends with
/// the round in which a player reaches two wins.
pub proof fn lemma_step_keeps_wf(session: Session, action: PlayerAction)
    requires
        session.wf(),
        session.step(action) is Ok,
    ensures
        session.step(action)->Ok_0.wf(),
        phase(session) <= phase(session.step(action)->Ok_0),
        completed(session) <= completed(session.step(action)->Ok_0),
        completed(session.step(action)->Ok_0) <= completed(session) + 1,
{
    let next = session.step(action)->Ok_0;
    match session {
        Session::WaitingForPlayers { players } => {
            match action {
                PlayerAction::Join { player } => {
                    if players.len() == 1 {
                        assert(players.contains(players[0]));
                        assert(players.push(player)[0] == players[0]);
                        assert(wins(Seq::<Round>::empty(), players[0]) == 0);
                        assert(wins(Seq::<Round>::empty(), player) == 0);
                    } else {
                        assert(seq![player].len() == 1);
                    }
                },
                _ => {},
            }
        },
        Session::WaitingForInput { players, round, input, history } => {
            match action {
                PlayerAction::Move { player, action } => {
                    if players.contains(player) {
                        match input {
                            None => {},
                            Some((p1, m1)) => {
                                if p1 != player {
                                    let entry = round_of(p1, m1, player, action);
                                    let after = history.push(entry);
                                    let a = players[0];
                                    let b = players[1];
                                    assert(p1 == a || p1 == b);
                                    assert(player == a || player == b);
                                    lemma_wins_after_round(history, entry, a);
                                    lemma_wins_after_round(history, entry, b);
                                    assert forall|i: int| 0 <= i < after.len() implies {
                                        let w = (#[trigger] after[i]).winner;
                                        w == None::<PlayerId> || w == Some(a) || w == Some(b)
                                    } by {
                                        if i < history.len() {
                                            assert(after[i] == history[i]);
                                        }
                                    }
                                    assert forall|p: PlayerId| p != a && p != b implies wins(after, p) == 0 by {
                                        lemma_no_rounds_no_wins(after, p);
                                    }
                                }
                            },
                        }
                    }
                },
                _ => {},
            }
        },
        Session::GameOver { .. } => {},
    }
}

/// A second player who joins starts the game: round 0, no pending move, no history.
/// The same player cannot join twice.
pub proof fn lemma_two_joins_start_the_game(p1: PlayerId, p2: PlayerId)
    ensures
        Session::fresh().step(join(p1)) == accepted(Session::WaitingForPlayers { players: seq![p1] }),
        p1 != p2 ==> (Session::WaitingForPlayers { players: seq![p1] }).step(join(p2)) == accepted(
            Session::WaitingForInput { players: seq![p1, p2], round: 0, input: None, history: Seq::empty() },
        ),
        (Session::WaitingForPlayers { players: seq![p1] }).step(join(p1)) == refused(InvalidAction::CantJoinTwice),
{
    assert(!Seq::<PlayerId>::empty().contains(p1));
    assert(seq![p1][0] == p1);
    assert(seq![p1].contains(p1));
    assert(seq![p1].push(p2) =~= seq![p1, p2]);
    if p1 != p2 && seq![p1].contains(p2) {
        let i = choose|i: int| 0 <= i < seq![p1].len() && seq![p1][i] == p2;
        assert(seq![p1][i] == p1);
    }
}

/// A player whose move is pending may send a move again: the session takes it and
/// stays as it is.
pub proof fn lemma_repeated_move_changes_nothing(session: Session, player: PlayerId, action: Move)
    requires
        session is WaitingForInput,
        session->WaitingForInput_players.contains(player),
        session.pending() == Some(player),
    ensures
        session.step(show(player, action)) == accepted(session),
{
}

/// A move by somebody who is not a player of the running game is refused as
/// `InvalidPlayer`, and every `Join` as `GameAlreadyInPlay`.
pub proof fn lemma_running_game_refuses(session: Session, player: PlayerId, action: Move)
    requires
        session is WaitingForInput,
    ensures
        !session->WaitingForInput_players.contains(player) ==> session.step(show(player, action)) == refused(
            InvalidAction::InvalidPlayer,
        ),
        session.step(join(player)) == refused(InvalidAction::GameAlreadyInPlay),
{
}

/// A finished session takes every action and stays as it is.
pub proof fn lemma_game_over_absorbs(session: Session, action: PlayerAction)
    requires
        session is GameOver,
    ensures
        session.step(action) == accepted(session),
{
}

} // verus!
