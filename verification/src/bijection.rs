//! Two-way maps between players and values, kept in the `bimap` crate's `BiHashMap`.
//!
//! What the contracts take from `BiHashMap` without proof stands in the functions
//! `bimap_*` below; everything else is proved from them.

use vstd::prelude::*;
use bimap::BiHashMap;
use std::collections::hash_map::RandomState;
use crate::player::PlayerId;

verus! {

/// `bimap::BiHashMap`, the two-way map of the `bimap` crate. Nothing is known of what
/// a value holds but what `pairs_of` names.
#[verifier::external_type_specification]
#[verifier::external_body]
#[verifier::reject_recursive_types(L)]
#[verifier::reject_recursive_types(R)]
#[verifier::reject_recursive_types(LS)]
#[verifier::reject_recursive_types(RS)]
pub struct ExBiHashMap<L, R, LS, RS>(BiHashMap<L, R, LS, RS>);

/// The left-to-right pairs that a bimap holds.
pub uninterp spec fn pairs_of(m: BiHashMap<u128, u8, RandomState, RandomState>) -> Map<u128, u8>;

/// The collection of pairs that holds none.
pub open spec fn no_pairs() -> Map<u128, u8> {
    Map::empty()
}

/// What a two-way map becomes when the pair `(left, right)` is inserted: every pair
/// that shares its left or its right value with the new pair leaves, then the new
/// pair enters.
pub open spec fn pair_inserted<L, R>(pairs: Map<L, R>, left: L, right: R) -> Map<L, R> {
    Map::new(
        |l: L| l == left || (pairs.contains_key(l) && pairs[l] != right),
        |l: L| if l == left { right } else { pairs[l] },
    )
}

/// No two left values are paired with the same right value.
pub open spec fn one_to_one<L, R>(pairs: Map<L, R>) -> bool {
    forall|a: L, b: L|
        pairs.contains_key(a) && pairs.contains_key(b) && #[trigger] pairs[a] == #[trigger] pairs[b]
            ==> a == b
}

/// The left value paired with `right`, where there is one.
pub open spec fn left_of<L, R>(pairs: Map<L, R>, right: R) -> Option<L> {
    if exists|l: L| pairs.contains_key(l) && #[trigger] pairs[l] == right {
        Some(choose|l: L| pairs.contains_key(l) && #[trigger] pairs[l] == right)
    } else {
        None
    }
}

/// The right value paired with `left`, where there is one.
pub open spec fn right_of<L, R>(pairs: Map<L, R>, left: L) -> Option<R> {
    if pairs.contains_key(left) {
        Some(pairs[left])
    } else {
        None
    }
}

/// The two-way map that comes of inserting the pairs of a list one after the other,
/// the first one first.
pub open spec fn built<L, R>(pairs: Seq<(L, R)>) -> Map<L, R>
    decreases pairs.len(),
{
    if pairs.len() == 0 {
        Map::empty()
    } else {
        pair_inserted(built(pairs.drop_last()), pairs.last().0, pairs.last().1)
    }
}

/// The list of the pair with this right value: one pair where a left value is
/// paired with it, none where none is.
pub open spec fn listed_for<L, R>(pairs: Map<L, R>, right: R) -> Seq<(L, R)> {
    match left_of(pairs, right) {
        Some(left) => seq![(left, right)],
        None => Seq::empty(),
    }
}

/// Building from a list that ends with the pair of one right value: the pair is
/// inserted last, where there is one.
pub proof fn lemma_built_with_listed<L, R>(before: Seq<(L, R)>, pairs: Map<L, R>, right: R)
    ensures
        built(before + listed_for(pairs, right)) == (match left_of(pairs, right) {
            Some(left) => pair_inserted(built(before), left, right),
            None => built(before),
        }),
{
    let whole = before + listed_for(pairs, right);
    match left_of(pairs, right) {
        Some(left) => {
            assert(whole.drop_last() =~= before);
            assert(whole.last() == (left, right));
        },
        None => {
            assert(whole =~= before);
        },
    }
}

/// Inserting a pair keeps a one-to-one map one-to-one.
pub proof fn lemma_pair_inserted_one_to_one<L, R>(pairs: Map<L, R>, left: L, right: R)
    requires
        one_to_one(pairs),
    ensures
        one_to_one(pair_inserted(pairs, left, right)),
{
    let after = pair_inserted(pairs, left, right);
    assert forall|a: L, b: L|
        after.contains_key(a) && after.contains_key(b) && #[trigger] after[a] == #[trigger] after[b]
        implies a == b by {
        if a != left && b != left {
            assert(pairs[a] == pairs[b]);
        }
    }
}

/// In a one-to-one map, a left value paired with `right` is the one `left_of` names.
pub proof fn lemma_left_of_unique<L, R>(pairs: Map<L, R>, left: L, right: R)
    requires
        one_to_one(pairs),
        pairs.contains_key(left),
        pairs[left] == right,
    ensures
        left_of(pairs, right) == Some(left),
{
    let l = choose|l: L| pairs.contains_key(l) && #[trigger] pairs[l] == right;
    assert(pairs[l] == pairs[left]);
}

/// `BiHashMap::new`: the bimap it returns holds no pair.
#[verifier::external_body]
fn bimap_new() -> (m: BiHashMap<u128, u8, RandomState, RandomState>)
    ensures
        pairs_of(m) == no_pairs(),
{
    BiHashMap::new()
}

/// `BiHashMap::insert`: takes out the pair with this left value and the pair with
/// this right value, where there are such, and then puts the new pair in.
#[verifier::external_body]
fn bimap_insert(m: &mut BiHashMap<u128, u8, RandomState, RandomState>, left: u128, right: u8)
    ensures
        pairs_of(*final(m)) == pair_inserted(pairs_of(*old(m)), left, right),
{
    m.insert(left, right);
}

/// `BiHashMap::get_by_left`: the right value paired with `left`, if there is one.
#[verifier::external_body]
fn bimap_get_by_left(m: &BiHashMap<u128, u8, RandomState, RandomState>, left: u128) -> (right: Option<u8>)
    ensures
        right == right_of(pairs_of(*m), left),
{
    m.get_by_left(&left).copied()
}

/// `BiHashMap::get_by_right`: a left value paired with `right`, if there is one;
/// `None` only where no left value is paired with it.
#[verifier::external_body]
fn bimap_get_by_right(m: &BiHashMap<u128, u8, RandomState, RandomState>, right: u8) -> (left: Option<u128>)
    ensures
        left is Some ==> pairs_of(*m).contains_key(left->0) && pairs_of(*m)[left->0] == right,
        left is None ==> left_of(pairs_of(*m), right) is None,
{
    m.get_by_right(&right).copied()
}

/// `Clone::clone` of a `BiHashMap`: the copy holds the same pairs.
#[verifier::external_body]
fn bimap_clone(m: &BiHashMap<u128, u8, RandomState, RandomState>) -> (copy: BiHashMap<u128, u8, RandomState, RandomState>)
    ensures
        pairs_of(copy) == pairs_of(*m),
{
    m.clone()
}

/// A two-way map between players and small codes, kept in a `bimap::BiHashMap`.
///
/// No player has two codes and no code has two players.
#[derive(Debug)]
pub struct PlayerMap {
    pairs: BiHashMap<u128, u8, RandomState, RandomState>,
}

impl View for PlayerMap {
    type V = Map<PlayerId, u8>;

    closed spec fn view(&self) -> Map<PlayerId, u8> {
        Map::new(
            |p: PlayerId| pairs_of(self.pairs).contains_key(p.value),
            |p: PlayerId| pairs_of(self.pairs)[p.value],
        )
    }
}

impl PlayerMap {
    #[verifier::type_invariant]
    closed spec fn inv(&self) -> bool {
        one_to_one(pairs_of(self.pairs))
    }

    /// The map without any pair.
    pub fn new() -> (m: PlayerMap)
        ensures
            m@ == Map::<PlayerId, u8>::empty(),
    {
        let m = PlayerMap { pairs: bimap_new() };
        assert(m@ =~= Map::<PlayerId, u8>::empty());
        m
    }

    /// The map with the pair `(player, code)` inserted.
    pub fn with_pair(self, player: PlayerId, code: u8) -> (m: PlayerMap)
        ensures
            m@ == pair_inserted(self@, player, code),
    {
        proof {
            use_type_invariant(&self);
            lemma_pair_inserted_one_to_one(pairs_of(self.pairs), player.value, code);
        }
        let ghost before = self@;
        let mut pairs = self.pairs;
        bimap_insert(&mut pairs, player.value, code);
        let m = PlayerMap { pairs };
        assert(m@ =~= pair_inserted(before, player, code));
        m
    }

    /// The code of `player`, if the player has one.
    pub fn get_by_left(&self, player: PlayerId) -> (code: Option<u8>)
        ensures
            code == right_of(self@, player),
    {
        bimap_get_by_left(&self.pairs, player.value)
    }

    /// The player who has `code`, if any has.
    pub fn get_by_right(&self, code: u8) -> (player: Option<PlayerId>)
        ensures
            player == left_of(self@, code),
            forall|q: PlayerId| self@.contains_key(q) && #[trigger] self@[q] == code ==> player == Some(q),
    {
        let found = bimap_get_by_right(&self.pairs, code);
        match found {
            Some(value) => {
                let p = PlayerId { value };
                proof {
                    use_type_invariant(self);
                    let pairs = pairs_of(self.pairs);
                    assert forall|a: PlayerId, b: PlayerId|
                        self@.contains_key(a) && self@.contains_key(b) && #[trigger] self@[a]
                            == #[trigger] self@[b] implies a == b by {
                        assert(pairs[a.value] == pairs[b.value]);
                    }
                    lemma_left_of_unique(self@, p, code);
                    assert forall|q: PlayerId| self@.contains_key(q) && #[trigger] self@[q] == code implies q
                        == p by {
                        assert(self@[q] == self@[p]);
                    }
                }
                Some(p)
            },
            None => {
                proof {
                    if left_of(self@, code) is Some {
                        let p = choose|p: PlayerId| self@.contains_key(p) && #[trigger] self@[p] == code;
                        assert(pairs_of(self.pairs).contains_key(p.value) && pairs_of(self.pairs)[p.value] == code);
                    }
                }
                None
            },
        }
    }
}

impl Clone for PlayerMap {
    /// A copy that holds the same pairs.
    fn clone(&self) -> (m: PlayerMap)
        ensures
            m@ == self@,
    {
        proof {
            use_type_invariant(self);
        }
        let m = PlayerMap { pairs: bimap_clone(&self.pairs) };
        assert(m@ =~= self@);
        m
    }
}

} // verus!
