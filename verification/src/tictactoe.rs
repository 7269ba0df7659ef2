//! Tic-tac-toe for two players on a board of three by three cells.

use vstd::prelude::*;
use crate::bijection::{built, left_of, listed_for, one_to_one, pair_inserted, right_of, PlayerMap};
use crate::player::PlayerId;

verus! {

/// A token on the board.
#[derive(Copy, Clone, Debug, Hash, PartialEq, Eq, Structural)]
pub enum BoardCell {
    Circle,
    X,
}

/// The board as it is stored: three rows of three cells.
pub type Board = [[Option<BoardCell>; 3]; 3];

/// The board as the contracts see it: `grid[row][column]`.
pub type Grid = Seq<Seq<Option<BoardCell>>>;

/// The grid that a stored board stands for.
pub open spec fn grid_of(board: Board) -> Grid {
    Seq::new(3, |r: int| board[r]@)
}

/// The grid has three rows of three cells.
pub open spec fn three_by_three(grid: Grid) -> bool {
    grid.len() == 3 && forall|r: int| 0 <= r < 3 ==> (#[trigger] grid[r]).len() == 3
}

/// The grid with no token on it.
pub open spec fn empty_grid() -> Grid {
    Seq::new(3, |r: int| Seq::new(3, |c: int| None::<BoardCell>))
}

/// The grid after `token` was put on the cell at `row`, `column`.
pub open spec fn placed(grid: Grid, row: int, column: int, token: BoardCell) -> Grid {
    grid.update(row, grid[row].update(column, Some(token)))
}

/// The token that a code stands for.
pub open spec fn token_of(code: u8) -> BoardCell {
    if code == 1 {
        BoardCell::X
    } else {
        BoardCell::Circle
    }
}

/// The code under which a token is kept in the two-way map.
fn token_code(token: BoardCell) -> (code: u8)
    ensures
        code <= 1,
        token_of(code) == token,
{
    match token {
        BoardCell::Circle => 0,
        BoardCell::X => 1,
    }
}

/// Which player has which token: a two-way map, read from either side.
#[derive(Debug)]
pub struct Tokens {
    map: PlayerMap,
}

impl View for Tokens {
    type V = Map<PlayerId, BoardCell>;

    closed spec fn view(&self) -> Map<PlayerId, BoardCell> {
        Map::new(|p: PlayerId| self.map@.contains_key(p), |p: PlayerId| token_of(self.map@[p]))
    }
}

impl Tokens {
    #[verifier::type_invariant]
    closed spec fn inv(&self) -> bool {
        forall|p: PlayerId| self.map@.contains_key(p) ==> #[trigger] self.map@[p] <= 1
    }

    /// The assignment in which no player has a token.
    pub fn new() -> (tokens: Tokens)
        ensures
            tokens@ == Map::<PlayerId, BoardCell>::empty(),
    {
        let tokens = Tokens { map: PlayerMap::new() };
        assert(tokens@ =~= Map::<PlayerId, BoardCell>::empty());
        tokens
    }

    /// Gives `token` to `player`. The token that the player had, and the player who
    /// had the token, lose theirs.
    pub fn insert(&mut self, player: PlayerId, token: BoardCell)
        ensures
            final(self)@ == pair_inserted(old(self)@, player, token),
    {
        let ghost before = self@;
        let mut taken = Tokens::new();
        core::mem::swap(self, &mut taken);
        proof {
            use_type_invariant(&taken);
        }
        let updated = Tokens { map: taken.map.with_pair(player, token_code(token)) };
        assert(updated@ =~= pair_inserted(before, player, token));
        *self = updated;
    }

    /// The token of `player`, if the player has one.
    pub fn get_by_left(&self, player: &PlayerId) -> (token: Option<BoardCell>)
        ensures
            token == right_of(self@, *player),
    {
        match self.map.get_by_left(*player) {
            Some(code) => Some(if code == 1 { BoardCell::X } else { BoardCell::Circle }),
            None => None,
        }
    }

    /// The player who has `token`, if any has; no other player has it.
    pub fn get_by_right(&self, token: &BoardCell) -> (player: Option<PlayerId>)
        ensures
            player == left_of(self@, *token),
            forall|q: PlayerId| self@.contains_key(q) && #[trigger] self@[q] == *token ==> player == Some(q),
    {
        proof {
            use_type_invariant(self);
        }
        let code = token_code(*token);
        let found = self.map.get_by_right(code);
        proof {
            if left_of(self@, *token) is Some {
                let q = choose|q: PlayerId| self@.contains_key(q) && #[trigger] self@[q] == *token;
                assert(self.map@[q] <= 1);
                assert(self.map@.contains_key(q) && self.map@[q] == code);
                assert(found == Some(q));
            } else if found is Some {
                let p = found->0;
                assert(self@.contains_key(p) && self@[p] == *token);
            }
        }
        found
    }

    /// The pairs of the assignment as a list: the holder of `X` first, where there is
    /// one, then the holder of `Circle`.
    pub fn pairs(&self) -> (pairs: Vec<(PlayerId, BoardCell)>)
        ensures
            pairs@ == listed(self@),
            built(pairs@) == self@,
            one_to_one(self@),
    {
        let mut pairs: Vec<(PlayerId, BoardCell)> = Vec::new();
        if let Some(player) = self.get_by_right(&BoardCell::X) {
            pairs.push((player, BoardCell::X));
        }
        if let Some(player) = self.get_by_right(&BoardCell::Circle) {
            pairs.push((player, BoardCell::Circle));
        }
        proof {
            assert(pairs@ =~= listed(self@));
            assert forall|a: PlayerId, b: PlayerId|
                self@.contains_key(a) && self@.contains_key(b) && #[trigger] self@[a] == #[trigger] self@[b] implies a
                == b by {
                assert(self@[a] == BoardCell::X || self@[a] == BoardCell::Circle);
            }
            lemma_listed_builds(self@);
        }
        pairs
    }

    /// The assignment that comes of inserting the pairs of the list in their order.
    pub fn from_pairs(pairs: &Vec<(PlayerId, BoardCell)>) -> (tokens: Tokens)
        ensures
            tokens@ == built(pairs@),
    {
        let mut tokens = Tokens::new();
        let mut i: usize = 0;
        while i < pairs.len()
            invariant
                i <= pairs.len(),
                tokens@ == built(pairs@.take(i as int)),
            decreases pairs.len() - i,
        {
            assert(pairs@.take(i + 1).drop_last() =~= pairs@.take(i as int));
            let (player, token) = pairs[i];
            tokens.insert(player, token);
            i += 1;
        }
        assert(pairs@.take(pairs.len() as int) =~= pairs@);
        tokens
    }
}

/// The pairs of an assignment as a list: the pair of `X` first, then that of
/// `Circle`.
pub open spec fn listed(tokens: Map<PlayerId, BoardCell>) -> Seq<(PlayerId, BoardCell)> {
    listed_for(tokens, BoardCell::X) + listed_for(tokens, BoardCell::Circle)
}

/// An assignment that is written out as the list of its pairs and built again from
/// that list is the assignment that it was.
pub proof fn lemma_listed_builds(tokens: Map<PlayerId, BoardCell>)
    requires
        one_to_one(tokens),
    ensures
        built(listed(tokens)) == tokens,
{
    let pairs = listed(tokens);
    let x = left_of(tokens, BoardCell::X);
    let o = left_of(tokens, BoardCell::Circle);
    let none = Map::<PlayerId, BoardCell>::empty();
    assert forall|p: PlayerId| #[trigger] tokens.dom().contains(p) implies (tokens[p] == BoardCell::X ==> x == Some(p))
        && (tokens[p] == BoardCell::Circle ==> o == Some(p)) by {
        crate::bijection::lemma_left_of_unique(tokens, p, tokens[p]);
    }
    reveal_with_fuel(built, 3);
    if x is Some {
        assert(tokens.contains_key(x->0) && tokens[x->0] == BoardCell::X);
    }
    if o is Some {
        assert(tokens.contains_key(o->0) && tokens[o->0] == BoardCell::Circle);
    }
    let one = pair_inserted(none, x->0, BoardCell::X);
    if x is Some && o is Some {
        assert(pairs =~= seq![(x->0, BoardCell::X), (o->0, BoardCell::Circle)]);
        assert(pairs.drop_last() =~= seq![(x->0, BoardCell::X)]);
        assert(pairs.drop_last().drop_last() =~= Seq::<(PlayerId, BoardCell)>::empty());
        assert(built(pairs.drop_last()) == one);
        assert(built(pairs) == pair_inserted(one, o->0, BoardCell::Circle));
        assert(pair_inserted(one, o->0, BoardCell::Circle) =~= tokens);
    } else if x is Some {
        assert(pairs =~= seq![(x->0, BoardCell::X)]);
        assert(pairs.drop_last() =~= Seq::<(PlayerId, BoardCell)>::empty());
        assert(built(pairs) == one);
        assert(one =~= tokens);
    } else if o is Some {
        assert(pairs =~= seq![(o->0, BoardCell::Circle)]);
        assert(pairs.drop_last() =~= Seq::<(PlayerId, BoardCell)>::empty());
        assert(built(pairs) == pair_inserted(none, o->0, BoardCell::Circle));
        assert(pair_inserted(none, o->0, BoardCell::Circle) =~= tokens);
    } else {
        assert(pairs =~= Seq::<(PlayerId, BoardCell)>::empty());
        assert(none =~= tokens);
    }
}

impl Clone for Tokens {
    /// A copy with the same assignment.
    fn clone(&self) -> (tokens: Tokens)
        ensures
            tokens@ == self@,
    {
        proof {
            use_type_invariant(self);
        }
        let tokens = Tokens { map: self.map.clone() };
        assert(tokens@ =~= self@);
        tokens
    }
}

/// The state of one session of tic-tac-toe.
#[derive(Debug)]
pub enum GameState {
    WaitingForPlayers {
        players: Vec<PlayerId>,
    },
    WaitingForInput {
        /// Which player's turn it is.
        active_player: PlayerId,
        /// The player who waits.
        waiting: PlayerId,
        /// Which player has which token.
        tokens: Tokens,
        board: Board,
    },
    GameOver {
        /// The winner; `None` is a tie.
        winner: Option<PlayerId>,
        board: Board,
    },
}

/// What a session is, mathematically.
pub enum Session {
    WaitingForPlayers { players: Seq<PlayerId> },
    WaitingForInput {
        active_player: PlayerId,
        waiting: PlayerId,
        tokens: Map<PlayerId, BoardCell>,
        board: Grid,
    },
    GameOver { winner: Option<PlayerId>, board: Grid },
}

impl View for GameState {
    type V = Session;

    open spec fn view(&self) -> Session {
        match *self {
            GameState::WaitingForPlayers { players } => Session::WaitingForPlayers { players: players@ },
            GameState::WaitingForInput { active_player, waiting, tokens, board } => Session::WaitingForInput {
                active_player,
                waiting,
                tokens: tokens@,
                board: grid_of(board),
            },
            GameState::GameOver { winner, board } => Session::GameOver { winner, board: grid_of(board) },
        }
    }
}

impl Clone for GameState {
    /// A copy that stands for the same session.
    fn clone(&self) -> (state: GameState)
        ensures
            state@ == self@,
    {
        match self {
            GameState::WaitingForPlayers { players } => GameState::WaitingForPlayers {
                players: crate::player::copy_players(players),
            },
            GameState::WaitingForInput { active_player, waiting, tokens, board } => GameState::WaitingForInput {
                active_player: *active_player,
                waiting: *waiting,
                tokens: tokens.clone(),
                board: *board,
            },
            GameState::GameOver { winner, board } => GameState::GameOver { winner: *winner, board: *board },
        }
    }
}

impl GameState {
    /// Whether an action can be applied: while the game runs, the two players hold the
    /// two tokens, one each, and nobody else holds one.
    pub fn is_playable(&self) -> (ok: bool)
        ensures
            ok == self@.playable(),
    {
        match self {
            GameState::WaitingForInput { active_player, waiting, tokens, .. } => {
                let first = tokens.get_by_left(active_player);
                let second = tokens.get_by_left(waiting);
                match (first, second) {
                    (Some(a), Some(b)) => {
                        let holder_a = tokens.get_by_right(&a);
                        let holder_b = tokens.get_by_right(&b);
                        let ok = *active_player != *waiting && a != b;
                        proof {
                            if ok {
                                assert forall|p: PlayerId| tokens@.dom().contains(p) implies p == *active_player || p
                                    == *waiting by {
                                    assert(tokens@[p] == a || tokens@[p] == b);
                                    assert(holder_a == Some(*active_player));
                                    assert(holder_b == Some(*waiting));
                                }
                                assert(tokens@.dom() =~= set![*active_player, *waiting]);
                            }
                        }
                        ok
                    },
                    _ => {
                        proof {
                            if assigned(tokens@, *active_player, *waiting) {
                                assert(tokens@.dom().contains(*active_player));
                                assert(tokens@.dom().contains(*waiting));
                            }
                        }
                        false
                    },
                }
            },
            _ => true,
        }
    }
}

impl Default for GameState {
    fn default() -> (state: GameState)
        ensures
            state@ == Session::fresh(),
    {
        GameState::WaitingForPlayers { players: Vec::new() }
    }
}

/// What a player asks of a session.
#[derive(Clone, Copy, Debug)]
pub enum PlayerAction {
    Join { player: PlayerId },
    PlaceToken { player: PlayerId, position: (usize, usize) },
}

/// An input action would result in an invalid or inconsistent game state.
#[derive(Clone, Copy, Debug, PartialEq, Eq, Structural)]
pub enum InvalidAction {
    CantJoinTwice,
    StillWaitingForPlayers,
    GameAlreadyInPlay,
    PositionOutOfBounds,
    AlreadyPlacedThere,
    NotYourTurn,
}

/// The two players hold the two tokens, one each, and nobody else holds one.
pub open spec fn assigned(tokens: Map<PlayerId, BoardCell>, a: PlayerId, b: PlayerId) -> bool {
    &&& a != b
    &&& tokens.dom() =~= set![a, b]
    &&& tokens[a] != tokens[b]
}

/// Every cell of row `row` holds `token`.
pub open spec fn row_complete(grid: Grid, row: int, token: BoardCell) -> bool {
    grid[row][0] == Some(token) && grid[row][1] == Some(token) && grid[row][2] == Some(token)
}

/// Every cell of column `column` holds `token`.
pub open spec fn column_complete(grid: Grid, column: int, token: BoardCell) -> bool {
    grid[0][column] == Some(token) && grid[1][column] == Some(token) && grid[2][column] == Some(token)
}

/// One of the three rows is complete for `token`.
pub open spec fn any_row(grid: Grid, token: BoardCell) -> bool {
    exists|row: int| 0 <= row < 3 && row_complete(grid, row, token)
}

/// One of the three columns is complete for `token`.
pub open spec fn any_column(grid: Grid, token: BoardCell) -> bool {
    exists|column: int| 0 <= column < 3 && column_complete(grid, column, token)
}

/// One of the two diagonals is complete for `token`.
pub open spec fn any_diagonal(grid: Grid, token: BoardCell) -> bool {
    ||| grid[0][0] == Some(token) && grid[1][1] == Some(token) && grid[2][2] == Some(token)
    ||| grid[2][0] == Some(token) && grid[1][1] == Some(token) && grid[0][2] == Some(token)
}

/// A row, a column or a diagonal is complete for `token`.
pub open spec fn has_line(grid: Grid, token: BoardCell) -> bool {
    any_row(grid, token) || any_column(grid, token) || any_diagonal(grid, token)
}

/// No cell is empty.
pub open spec fn is_full(grid: Grid) -> bool {
    forall|row: int, column: int| 0 <= row < 3 && 0 <= column < 3 ==> (#[trigger] grid[row][column]) is Some
}

/// The board is full and no line is complete.
pub open spec fn is_tie(grid: Grid) -> bool {
    is_full(grid) && !has_line(grid, BoardCell::X) && !has_line(grid, BoardCell::Circle)
}

/// How the game stands. `None`: undecided. `Some(None)`: a tie. `Some(Some(p))`: `p`
/// has won. Rows are looked at before columns and columns before diagonals, and for
/// each of them `X` before `Circle`.
pub open spec fn outcome(grid: Grid, tokens: Map<PlayerId, BoardCell>) -> Option<Option<PlayerId>> {
    if any_row(grid, BoardCell::X) {
        Some(left_of(tokens, BoardCell::X))
    } else if any_row(grid, BoardCell::Circle) {
        Some(left_of(tokens, BoardCell::Circle))
    } else if any_column(grid, BoardCell::X) {
        Some(left_of(tokens, BoardCell::X))
    } else if any_column(grid, BoardCell::Circle) {
        Some(left_of(tokens, BoardCell::Circle))
    } else if any_diagonal(grid, BoardCell::X) {
        Some(left_of(tokens, BoardCell::X))
    } else if any_diagonal(grid, BoardCell::Circle) {
        Some(left_of(tokens, BoardCell::Circle))
    } else if is_full(grid) {
        Some(None)
    } else {
        None
    }
}

/// The session that two players start: the coin decides who gets `X`, and `X` moves
/// first.
pub open spec fn started(p1: PlayerId, p2: PlayerId, coin: bool) -> Session {
    let none = Map::<PlayerId, BoardCell>::empty();
    if coin {
        Session::WaitingForInput {
            active_player: p1,
            waiting: p2,
            tokens: pair_inserted(pair_inserted(none, p1, BoardCell::X), p2, BoardCell::Circle),
            board: empty_grid(),
        }
    } else {
        Session::WaitingForInput {
            active_player: p2,
            waiting: p1,
            tokens: pair_inserted(pair_inserted(none, p1, BoardCell::Circle), p2, BoardCell::X),
            board: empty_grid(),
        }
    }
}

impl Session {
    /// The session that nobody has joined yet.
    pub open spec fn fresh() -> Session {
        Session::WaitingForPlayers { players: Seq::empty() }
    }

    /// While the game runs, the two players hold the two tokens. A session must be
    /// playable for an action to be applied to it.
    pub open spec fn playable(self) -> bool {
        match self {
            Session::WaitingForInput { active_player, waiting, tokens, .. } => assigned(
                tokens,
                active_player,
                waiting,
            ),
            _ => true,
        }
    }

    /// What every session has that began fresh and was changed by `step` alone: at
    /// most one player waits, and a running game is playable and still undecided, with
    /// no complete line and an empty cell left.
    pub open spec fn wf(self) -> bool {
        match self {
            Session::WaitingForPlayers { players } => players.len() <= 1,
            Session::WaitingForInput { board, tokens, .. } => {
                &&& self.playable()
                &&& three_by_three(board)
                &&& !has_line(board, BoardCell::X)
                &&& !has_line(board, BoardCell::Circle)
                &&& !is_full(board)
            },
            Session::GameOver { .. } => true,
        }
    }

    /// The transition function: the session after `action`, or the reason why the
    /// action is refused. `coin` is looked at only when the second player joins.
    pub open spec fn step(self, action: PlayerAction, coin: bool) -> Result<Session, InvalidAction> {
        match self {
            Session::WaitingForPlayers { players } => match action {
                PlayerAction::Join { player } => {
                    if players.contains(player) {
                        Err(InvalidAction::CantJoinTwice)
                    } else if players.len() == 1 {
                        Ok(started(players[0], player, coin))
                    } else {
                        Ok(Session::WaitingForPlayers { players: players.push(player) })
                    }
                },
                PlayerAction::PlaceToken { .. } => Err(InvalidAction::StillWaitingForPlayers),
            },
            Session::WaitingForInput { active_player, waiting, tokens, board } => match action {
                PlayerAction::PlaceToken { player, position } => {
                    if active_player != player {
                        Err(InvalidAction::NotYourTurn)
                    } else if position.0 >= 3 || position.1 >= 3 {
                        Err(InvalidAction::PositionOutOfBounds)
                    } else if board[position.0 as int][position.1 as int] is Some {
                        Err(InvalidAction::AlreadyPlacedThere)
                    } else {
                        let after = placed(board, position.0 as int, position.1 as int, tokens[player]);
                        match outcome(after, tokens) {
                            Some(winner) => Ok(Session::GameOver { winner, board: after }),
                            None => Ok(
                                Session::WaitingForInput {
                                    active_player: waiting,
                                    waiting: player,
                                    tokens,
                                    board: after,
                                },
                            ),
                        }
                    }
                },
                PlayerAction::Join { .. } => Err(InvalidAction::GameAlreadyInPlay),
            },
            Session::GameOver { .. } => Ok(self),
        }
    }
}

/// What the result of a transition is, mathematically.
pub open spec fn result_view(result: Result<GameState, InvalidAction>) -> Result<Session, InvalidAction> {
    match result {
        Ok(state) => Ok(state@),
        Err(e) => Err(e),
    }
}

/// When two players hold the two tokens, each token has its player.
pub proof fn lemma_assigned_tokens_held(tokens: Map<PlayerId, BoardCell>, a: PlayerId, b: PlayerId)
    requires
        assigned(tokens, a, b),
    ensures
        left_of(tokens, BoardCell::X) is Some,
        left_of(tokens, BoardCell::Circle) is Some,
        left_of(tokens, tokens[a]) == Some(a),
        left_of(tokens, tokens[b]) == Some(b),
{
    assert(tokens.dom().contains(a) && tokens.dom().contains(b));
    assert(tokens.contains_key(a) && tokens.contains_key(b));
    assert forall|x: PlayerId, y: PlayerId|
        tokens.contains_key(x) && tokens.contains_key(y) && #[trigger] tokens[x] == #[trigger] tokens[y]
        implies x == y by {
        assert(tokens.dom().contains(x) && tokens.dom().contains(y));
    }
    crate::bijection::lemma_left_of_unique(tokens, a, tokens[a]);
    crate::bijection::lemma_left_of_unique(tokens, b, tokens[b]);
}

/// Whether no cell of the board is empty.
pub fn is_board_full(board: &Board) -> (full: bool)
    ensures
        full == is_full(grid_of(*board)),
{
    let mut found_empty = false;
    let mut row: usize = 0;
    while row < 3
        invariant
            row <= 3,
            found_empty == (exists|r: int, c: int|
                0 <= r < row && 0 <= c < 3 && (#[trigger] grid_of(*board)[r][c]) is None),
        decreases 3 - row,
    {
        let mut col: usize = 0;
        while col < 3
            invariant
                row < 3,
                col <= 3,
                found_empty == (exists|r: int, c: int|
                    (0 <= r < row && 0 <= c < 3 || r == row && 0 <= c < col) && (#[trigger] grid_of(
                        *board,
                    )[r][c]) is None),
            decreases 3 - col,
        {
            if board[row][col].is_none() {
                found_empty = true;
                assert(grid_of(*board)[row as int][col as int] is None);
            }
            col += 1;
        }
        row += 1;
    }
    !found_empty
}

/// Whether each of the three cells holds `cell`.
pub fn check_match(cells: &[Option<BoardCell>; 3], cell: &BoardCell) -> (all: bool)
    ensures
        all == (cells@[0] == Some(*cell) && cells@[1] == Some(*cell) && cells@[2] == Some(*cell)),
{
    let mut i: usize = 0;
    while i < 3
        invariant
            i <= 3,
            forall|k: int| 0 <= k < i ==> cells@[k] == Some(*cell),
        decreases 3 - i,
    {
        match cells[i] {
            Some(token) => {
                if token != *cell {
                    return false;
                }
            },
            None => {
                return false;
            },
        }
        i += 1;
    }
    true
}

/// The holder of `token` if one of the rows is complete for it.
pub fn check_rows(board: &Board, token: BoardCell, tokens: &Tokens) -> (winner: Option<PlayerId>)
    requires
        left_of(tokens@, token) is Some,
    ensures
        winner == (if any_row(grid_of(*board), token) {
            left_of(tokens@, token)
        } else {
            None
        }),
{
    let mut row: usize = 0;
    while row < 3
        invariant
            row <= 3,
            forall|r: int| 0 <= r < row ==> !row_complete(grid_of(*board), r, token),
        decreases 3 - row,
    {
        let cells = [board[row][0], board[row][1], board[row][2]];
        if check_match(&cells, &token) {
            assert(row_complete(grid_of(*board), row as int, token));
            return tokens.get_by_right(&token);
        }
        row += 1;
    }
    None
}

/// The holder of `token` if one of the columns is complete for it.
pub fn check_columns(board: &Board, token: BoardCell, tokens: &Tokens) -> (winner: Option<PlayerId>)
    requires
        left_of(tokens@, token) is Some,
    ensures
        winner == (if any_column(grid_of(*board), token) {
            left_of(tokens@, token)
        } else {
            None
        }),
{
    let mut col: usize = 0;
    while col < 3
        invariant
            col <= 3,
            forall|c: int| 0 <= c < col ==> !column_complete(grid_of(*board), c, token),
        decreases 3 - col,
    {
        let cells = [board[0][col], board[1][col], board[2][col]];
        if check_match(&cells, &token) {
            assert(column_complete(grid_of(*board), col as int, token));
            return tokens.get_by_right(&token);
        }
        col += 1;
    }
    None
}

/// The holder of `token` if one of the two diagonals is complete for it.
pub fn check_diagonal(board: &Board, token: BoardCell, tokens: &Tokens) -> (winner: Option<PlayerId>)
    requires
        left_of(tokens@, token) is Some,
    ensures
        winner == (if any_diagonal(grid_of(*board), token) {
            left_of(tokens@, token)
        } else {
            None
        }),
{
    let left_down = [board[0][0], board[1][1], board[2][2]];
    if check_match(&left_down, &token) {
        return tokens.get_by_right(&token);
    }
    let right_down = [board[2][0], board[1][1], board[0][2]];
    if check_match(&right_down, &token) {
        return tokens.get_by_right(&token);
    }
    None
}

/// How the game stands on `board`: undecided, a tie, or won by the holder of a token
/// with a complete line.
pub fn check_win_condition(board: Board, tokens: &Tokens) -> (result: Option<Option<PlayerId>>)
    requires
        left_of(tokens@, BoardCell::X) is Some,
        left_of(tokens@, BoardCell::Circle) is Some,
    ensures
        result == outcome(grid_of(board), tokens@),
{
    if let Some(winner) = check_rows(&board, BoardCell::X, tokens) {
        return Some(Some(winner));
    }
    if let Some(winner) = check_rows(&board, BoardCell::Circle, tokens) {
        return Some(Some(winner));
    }
    if let Some(winner) = check_columns(&board, BoardCell::X, tokens) {
        return Some(Some(winner));
    }
    if let Some(winner) = check_columns(&board, BoardCell::Circle, tokens) {
        return Some(Some(winner));
    }
    if let Some(winner) = check_diagonal(&board, BoardCell::X, tokens) {
        return Some(Some(winner));
    }
    if let Some(winner) = check_diagonal(&board, BoardCell::Circle, tokens) {
        return Some(Some(winner));
    }
    if is_board_full(&board) {
        return Some(None);
    }
    None
}


/// Calls `rand::random` for a `bool`. The value is random: the contract claims
/// nothing of it.
#[verifier::external_body]
pub(crate) fn flip_coin() -> bool {
    rand::random::<bool>()
}

/// The board with `token` put on the cell at `position`.
fn place(board: Board, position: (usize, usize), token: BoardCell) -> (after: Board)
    requires
        position.0 < 3,
        position.1 < 3,
    ensures
        grid_of(after) == placed(grid_of(board), position.0 as int, position.1 as int, token),
{
    let mut after = board;
    let mut row = board[position.0];
    row[position.1] = Some(token);
    after[position.0] = row;
    assert(grid_of(after) =~= placed(grid_of(board), position.0 as int, position.1 as int, token));
    after
}

/// Applies `input` to `state` with a given coin, which is looked at only when the
/// second player joins: `true` gives `X` and the first move to the player who joined
/// first.
pub fn process_input_with(input: PlayerAction, state: GameState, coin: bool) -> (result: Result<GameState, InvalidAction>)
    requires
        state@.playable(),
    ensures
        result_view(result) == state@.step(input, coin),
{
    match state {
        GameState::WaitingForPlayers { players } => {
            match input {
                PlayerAction::Join { player } => {
                    if crate::player::is_member(&players, player) {
                        return Err(InvalidAction::CantJoinTwice);
                    }
                    let mut players = players;
                    if players.len() == 1 {
                        let p1 = players[0];
                        let p2 = player;
                        let mut tokens = Tokens::new();
                        let active_player: PlayerId;
                        let waiting: PlayerId;
                        if coin {
                            tokens.insert(p1, BoardCell::X);
                            tokens.insert(p2, BoardCell::Circle);
                            active_player = p1;
                            waiting = p2;
                        } else {
                            tokens.insert(p1, BoardCell::Circle);
                            tokens.insert(p2, BoardCell::X);
                            active_player = p2;
                            waiting = p1;
                        }
                        let board: Board = [[None, None, None], [None, None, None], [None, None, None]];
                        assert(grid_of(board) =~~= empty_grid());
                        Ok(GameState::WaitingForInput { active_player, waiting, tokens, board })
                    } else {
                        players.push(player);
                        Ok(GameState::WaitingForPlayers { players })
                    }
                },
                _ => Err(InvalidAction::StillWaitingForPlayers),
            }
        },
        GameState::WaitingForInput { active_player, waiting, tokens, board } => {
            match input {
                PlayerAction::PlaceToken { player, position } => {
                    if active_player != player {
                        return Err(InvalidAction::NotYourTurn);
                    }
                    if position.0 >= 3 || position.1 >= 3 {
                        return Err(InvalidAction::PositionOutOfBounds);
                    }
                    if board[position.0][position.1].is_some() {
                        return Err(InvalidAction::AlreadyPlacedThere);
                    }
                    proof {
                        lemma_assigned_tokens_held(tokens@, active_player, waiting);
                    }
                    let player_token = tokens.get_by_left(&player).unwrap();
                    let board = place(board, position, player_token);
                    match check_win_condition(board, &tokens) {
                        Some(winner) => Ok(GameState::GameOver { winner, board }),
                        None => Ok(
                            GameState::WaitingForInput {
                                waiting: player,
                                active_player: waiting,
                                tokens,
                                board,
                            },
                        ),
                    }
                },
                _ => Err(InvalidAction::GameAlreadyInPlay),
            }
        },
        GameState::GameOver { winner, board } => Ok(GameState::GameOver { winner, board }),
    }
}

/// Applies `input` to `state`. When the second player joins, a coin is flipped for
/// the tokens and the first move; every other transition is fixed by `state` and
/// `input`.
pub fn process_input(input: PlayerAction, state: GameState) -> (result: Result<GameState, InvalidAction>)
    requires
        state@.playable(),
    ensures
        exists|coin: bool| result_view(result) == #[trigger] state@.step(input, coin),
{
    let coin = match &state {
        GameState::WaitingForPlayers { .. } => flip_coin(),
        _ => false,
    };
    process_input_with(input, state, coin)
}


/// The phases of a session, in the order in which they follow each other.
pub open spec fn phase(session: Session) -> nat {
    match session {
        Session::WaitingForPlayers { .. } => 0,
        Session::WaitingForInput { .. } => 1,
        Session::GameOver { .. } => 2,
    }
}

/// An accepted action, with the session that follows.
pub open spec fn accepted(next: Session) -> Result<Session, InvalidAction> {
    Ok(next)
}

/// A refused action, with the reason.
pub open spec fn refused(reason: InvalidAction) -> Result<Session, InvalidAction> {
    Err(reason)
}

/// The action by which `player` joins.
pub open spec fn join(player: PlayerId) -> PlayerAction {
    PlayerAction::Join { player }
}

/// The action by which `player` puts a token on `position`.
pub open spec fn place_token(player: PlayerId, position: (usize, usize)) -> PlayerAction {
    PlayerAction::PlaceToken { player, position }
}

/// The session in which `players` wait for the game to start.
pub open spec fn waiting_for(players: Seq<PlayerId>) -> Session {
    Session::WaitingForPlayers { players }
}

/// `session` is a game that has just begun between `p1` and `p2`: the board is
/// empty, the two players and nobody else hold one token each, the tokens differ, and
/// the holder of `X` moves while the other waits.
pub open spec fn begins_between(session: Session, p1: PlayerId, p2: PlayerId) -> bool {
    match session {
        Session::WaitingForInput { active_player, waiting, tokens, board } => {
            &&& tokens.dom() =~= set![p1, p2]
            &&& tokens[p1] != tokens[p2]
            &&& crate::bijection::one_to_one(tokens)
            &&& set![active_player, waiting] =~= set![p1, p2]
            &&& active_player != waiting
            &&& tokens[active_player] == BoardCell::X
            &&& board == empty_grid()
        },
        _ => false,
    }
}

/// When two different players join a fresh session one after the other, the game
/// begins between them, whatever the coins show.
pub proof fn lemma_two_joins_start_the_game(p1: PlayerId, p2: PlayerId, coin1: bool, coin2: bool)
    requires
        p1 != p2,
    ensures
        Session::fresh().step(join(p1), coin1) == accepted(waiting_for(seq![p1])),
        waiting_for(seq![p1]).step(join(p2), coin2) == accepted(started(p1, p2, coin2)),
        begins_between(started(p1, p2, coin2), p1, p2),
{
    assert(Seq::<PlayerId>::empty().push(p1) =~= seq![p1]);
    assert(!Seq::<PlayerId>::empty().contains(p1));
    assert(seq![p1][0] == p1);
    assert(!seq![p1].contains(p2)) by {
        if seq![p1].contains(p2) {
            let i = choose|i: int| 0 <= i < seq![p1].len() && seq![p1][i] == p2;
            assert(seq![p1][i] == p1);
        }
    }
}

/// Some token has a complete line.
pub open spec fn is_won(grid: Grid) -> bool {
    has_line(grid, BoardCell::X) || has_line(grid, BoardCell::Circle)
}

/// `result` names a winner.
pub open spec fn names_winner(result: Option<Option<PlayerId>>) -> bool {
    result is Some && result->0 is Some
}

/// A win and a tie never hold of the same board, and `outcome` tells the three cases
/// apart: a winner, who is one of the two players, where a line is complete; a tie
/// where the board is full without a line; undecided otherwise.
pub proof fn lemma_win_excludes_tie(grid: Grid, tokens: Map<PlayerId, BoardCell>, a: PlayerId, b: PlayerId)
    requires
        assigned(tokens, a, b),
    ensures
        !(is_tie(grid) && is_won(grid)),
        is_won(grid) <==> names_winner(outcome(grid, tokens)),
        is_tie(grid) <==> outcome(grid, tokens) == Some(None::<PlayerId>),
        !is_won(grid) && !is_tie(grid) <==> outcome(grid, tokens) is None,
        names_winner(outcome(grid, tokens)) ==> outcome(grid, tokens)->0->0 == a || outcome(grid, tokens)->0->0 == b,
{
    lemma_assigned_tokens_held(tokens, a, b);
    let x = left_of(tokens, BoardCell::X)->0;
    let o = left_of(tokens, BoardCell::Circle)->0;
    assert(tokens.dom().contains(x) && tokens.dom().contains(o));
}

/// A token that is put on an empty cell completes no line of the other token: after
/// a move from a board without a line, only the token that moved can have one.
pub proof fn lemma_one_move_one_winner(grid: Grid, row: int, column: int, token: BoardCell, other: BoardCell)
    requires
        three_by_three(grid),
        0 <= row < 3,
        0 <= column < 3,
        other != token,
        !has_line(grid, other),
    ensures
        !has_line(placed(grid, row, column, token), other),
{
    let after = placed(grid, row, column, token);
    assert(after[row][column] == Some(token));
    assert forall|r: int, c: int| 0 <= r < 3 && 0 <= c < 3 && #[trigger] after[r][c] == Some(other) implies grid[r][c]
        == Some(other) by {}
    if any_row(after, other) {
        let r = choose|r: int| 0 <= r < 3 && row_complete(after, r, other);
        assert(row_complete(grid, r, other));
    }
    if any_column(after, other) {
        let c = choose|c: int| 0 <= c < 3 && column_complete(after, c, other);
        assert(column_complete(grid, c, other));
    }
}

/// A move by the player who is not at turn is refused as `NotYourTurn`, whatever the
/// position and however often it is tried: the session is left as it was.
pub proof fn lemma_out_of_turn_is_refused(session: Session, player: PlayerId, position: (usize, usize), coin: bool)
    requires
        session is WaitingForInput,
        session->active_player != player,
    ensures
        session.step(place_token(player, position), coin) == refused(InvalidAction::NotYourTurn),
{
}

/// A session that has started refuses every further `Join` as `GameAlreadyInPlay`.
pub proof fn lemma_join_after_start_is_refused(session: Session, player: PlayerId, coin: bool)
    requires
        session is WaitingForInput,
    ensures
        session.step(join(player), coin) == refused(InvalidAction::GameAlreadyInPlay),
{
}

/// A finished session takes every action and stays as it is.
pub proof fn lemma_game_over_absorbs(session: Session, action: PlayerAction, coin: bool)
    requires
        session is GameOver,
    ensures
        session.step(action, coin) == accepted(session),
{
}

/// Where both sessions are running games, they have the same tokens with the same
/// players.
pub open spec fn same_tokens(before: Session, after: Session) -> bool {
    before is WaitingForInput && after is WaitingForInput ==> after->tokens == before->tokens
}

/// The board of a session that has one.
pub open spec fn board_of(session: Session) -> Grid {
    match session {
        Session::WaitingForPlayers { .. } => empty_grid(),
        Session::WaitingForInput { board, .. } => board,
        Session::GameOver { board, .. } => board,
    }
}

/// `after` is `before` with `token` on the cell at `position`, which was empty.
pub open spec fn one_cell_filled(before: Grid, after: Grid, position: (usize, usize), token: BoardCell) -> bool {
    &&& position.0 < 3 && position.1 < 3
    &&& before[position.0 as int][position.1 as int] is None
    &&& after[position.0 as int][position.1 as int] == Some(token)
    &&& forall|r: int, c: int|
        0 <= r < 3 && 0 <= c < 3 && (r != position.0 || c != position.1) ==> #[trigger] after[r][c] == before[r][c]
}

/// An accepted action leaves a playable session playable.
pub proof fn lemma_step_keeps_playable(session: Session, action: PlayerAction, coin: bool)
    requires
        session.playable(),
        session.step(action, coin) is Ok,
    ensures
        session.step(action, coin)->Ok_0.playable(),
{
    match session {
        Session::WaitingForPlayers { players } => {
            if players.len() == 1 {
                let p1 = players[0];
                assert(players.contains(p1));
                match action {
                    PlayerAction::Join { player } => {
                        lemma_two_joins_start_the_game(p1, player, coin, coin);
                    },
                    _ => {},
                }
            }
        },
        _ => {},
    }
}

/// An accepted action keeps a well-formed session well-formed, never leads back to
/// an earlier phase, and leaves the tokens of a running game with their players.
pub proof fn lemma_step_keeps_wf(session: Session, action: PlayerAction, coin: bool)
    requires
        session.wf(),
        session.step(action, coin) is Ok,
    ensures
        session.step(action, coin)->Ok_0.wf(),
        phase(session) <= phase(session.step(action, coin)->Ok_0),
        same_tokens(session, session.step(action, coin)->Ok_0),
{
    let next = session.step(action, coin)->Ok_0;
    match session {
        Session::WaitingForPlayers { players } => {
            if players.len() == 1 {
                let p1 = players[0];
                assert(players.contains(p1));
                match action {
                    PlayerAction::Join { player } => {
                        lemma_two_joins_start_the_game(p1, player, coin, coin);
                        assert(next == started(p1, player, coin));
                        lemma_empty_grid_is_undecided();
                    },
                    _ => {},
                }
            } else {
                assert(players.len() == 0);
                match action {
                    PlayerAction::Join { player } => {
                        assert(players.push(player).len() == 1);
                    },
                    _ => {},
                }
            }
        },
        Session::WaitingForInput { active_player, waiting, tokens, board } => {
            if next is WaitingForInput {
                lemma_win_excludes_tie(next->WaitingForInput_board, tokens, active_player, waiting);
            }
        },
        _ => {},
    }
}

/// The empty grid has three rows of three cells, no complete line and room left.
pub proof fn lemma_empty_grid_is_undecided()
    ensures
        three_by_three(empty_grid()),
        !has_line(empty_grid(), BoardCell::X),
        !has_line(empty_grid(), BoardCell::Circle),
        !is_full(empty_grid()),
{
    assert(empty_grid()[0][0] is None);
    assert(empty_grid()[1][1] is None);
    assert forall|i: int| 0 <= i < 3 implies !row_complete(empty_grid(), i, BoardCell::X) && !row_complete(
        empty_grid(),
        i,
        BoardCell::Circle,
    ) && !column_complete(empty_grid(), i, BoardCell::X) && !column_complete(empty_grid(), i, BoardCell::Circle) by {
        assert(empty_grid()[i][0] is None);
        assert(empty_grid()[0][i] is None);
    }
}

/// Only the player who moves can win by the move: where a move from a well-formed
/// session ends the game with a winner, the winner is the player who made it.
pub proof fn lemma_winner_is_the_mover(session: Session, player: PlayerId, position: (usize, usize), coin: bool)
    requires
        session.wf(),
        session is WaitingForInput,
        session.step(place_token(player, position), coin) is Ok,
        session.step(place_token(player, position), coin)->Ok_0 is GameOver,
        session.step(place_token(player, position), coin)->Ok_0->winner is Some,
    ensures
        session.step(place_token(player, position), coin)->Ok_0->winner == Some(player),
        session->active_player == player,
{
    let tokens = session->tokens;
    let board = session->WaitingForInput_board;
    let token = tokens[player];
    let other = if token == BoardCell::X {
        BoardCell::Circle
    } else {
        BoardCell::X
    };
    let after = placed(board, position.0 as int, position.1 as int, token);
    lemma_one_move_one_winner(board, position.0 as int, position.1 as int, token, other);
    lemma_assigned_tokens_held(tokens, session->active_player, session->waiting);
}

/// An accepted move puts the token of the player at turn on the chosen cell, which
/// was empty, and changes no other cell.
pub proof fn lemma_move_changes_one_cell(session: Session, player: PlayerId, position: (usize, usize), coin: bool)
    requires
        session.wf(),
        session is WaitingForInput,
        session.step(place_token(player, position), coin) is Ok,
    ensures
        one_cell_filled(
            board_of(session),
            board_of(session.step(place_token(player, position), coin)->Ok_0),
            position,
            session->tokens[player],
        ),
{
}

} // verus!
