//! Players and their identifiers.

use vstd::prelude::*;

verus! {

/// Identifier of a player, unique among all players the registry has admitted.
///
/// The identifier is the 128-bit value of a UUID.
#[derive(Clone, Copy, Debug, PartialEq, Eq, Hash, Structural)]
pub struct PlayerId {
    pub value: u128,
}

impl PlayerId {
    /// The player identified by `value`.
    pub fn new(value: u128) -> (id: PlayerId)
        ensures
            id.value == value,
    {
        PlayerId { value }
    }

    /// Mints an identifier for a player who is about to join.
    ///
    /// The value is drawn at random, so nothing is promised of it.
    pub fn fresh() -> PlayerId {
        PlayerId { value: random_uuid_value() }
    }
}

/// Whether `player` is among `players`.
pub fn is_member(players: &Vec<PlayerId>, player: PlayerId) -> (found: bool)
    ensures
        found == players@.contains(player),
{
    let mut i: usize = 0;
    while i < players.len()
        invariant
            i <= players.len(),
            forall|k: int| 0 <= k < i ==> players@[k] != player,
        decreases players.len() - i,
    {
        if players[i] == player {
            return true;
        }
        i += 1;
    }
    false
}

/// A copy of a list of players.
pub fn copy_players(players: &Vec<PlayerId>) -> (copy: Vec<PlayerId>)
    ensures
        copy@ == players@,
{
    let mut copy: Vec<PlayerId> = Vec::new();
    let mut i: usize = 0;
    while i < players.len()
        invariant
            i <= players.len(),
            copy@ == players@.take(i as int),
        decreases players.len() - i,
    {
        copy.push(players[i]);
        i += 1;
        assert(players@.take(i as int) =~= players@.take(i - 1).push(players@[i - 1]));
    }
    assert(players@.take(players.len() as int) =~= players@);
    copy
}

/// Calls `uuid::Uuid::new_v4` and hands out the 128-bit value of the UUID it made
/// (`Uuid::as_u128`). The UUID is random: the contract claims nothing of it.
#[verifier::external_body]
fn random_uuid_value() -> u128 {
    uuid::Uuid::new_v4().as_u128()
}

} // verus!
