//! The whole game and its single mutation gateway: an append-only log of
//! atomic operations, each validated before it is applied, so that replaying
//! a log against a starting snapshot reproduces the resulting state.
use vstd::prelude::*;

use crate::board::{Coordinates, MarsBoard, TileLocation, TileStatus, MAX_OCEANS, MAX_OXYGEN, MAX_TEMPERATURE, TEMPERATURE_STEP};
use crate::card::{Card, CardEffect, CardEffectView, CardView, CityKind, SpecialTile};
use crate::game::{find_card_resource, metals_increase, PlayerId, PlayerState};
use crate::resource::{CardResource, Resource};

verus! {

/// An atomic, replayable mutation of a game. Operations are only emitted
/// after validation, so applying one demands that its preconditions hold.
pub enum GameOperation {
    /// Add a signed delta to one resource balance of one player.
    ChangeResource(PlayerId, Resource, isize),
    /// Add a signed delta to one production level of one player.
    ChangeProduction(PlayerId, Resource, isize),
    /// Add a signed delta to the token pool of one kind on one played card.
    ChangeCardResource(PlayerId, usize, CardResource, isize),
    /// Draw cards from the deck, folding the discard pile into the deck
    /// when the deck alone cannot serve the draw. The fold keeps the discard
    /// pile's order; a caller wanting an injectable random shuffle permutes
    /// the discard pile before emitting the draw.
    DrawCards(PlayerId, usize),
    /// Move a card from the hand to the discard pile.
    DiscardFromHand(PlayerId, usize),
    /// Move a card from the hand into play, taking on its passive effects.
    PutCardIntoPlay(PlayerId, usize),
    PlaceCityTile(PlayerId, TileLocation, CityKind),
    PlaceGreenery(PlayerId, Coordinates),
    PlaceSpecialTile(PlayerId, Coordinates, SpecialTile),
    PlaceOcean(Coordinates),
    RaiseTemperature,
    RaiseOxygen,
    RaiseTerraformRating(PlayerId, usize),
    /// Take on one passive effect.
    AddEffect(PlayerId, CardEffect),
    MarkCardActionUsed(PlayerId, usize),
    /// Clear every player's tap-state, at a generation boundary.
    ResetCardActions,
    /// Recorded for replay only; the milestone rules are outside this core.
    ClaimMilestone(PlayerId),
    /// Recorded for replay only; the award rules are outside this core.
    FundAward(PlayerId),
}

/// The first index holding the player, or the sequence length when absent.
pub open spec fn player_index_in(s: Seq<PlayerState>, pid: PlayerId) -> int
    decreases s.len(),
{
    if s.len() == 0 {
        0
    } else if s[0].player_id == pid {
        0
    } else {
        1 + player_index_in(s.skip(1), pid)
    }
}

/// Whether some player has the identity.
pub open spec fn has_player_in(s: Seq<PlayerState>, pid: PlayerId) -> bool
    decreases s.len(),
{
    if s.len() == 0 {
        false
    } else {
        s[0].player_id == pid || has_player_in(s.skip(1), pid)
    }
}

/// A present player's index is in range and carries the identity.
pub proof fn lemma_player_index(s: Seq<PlayerState>, pid: PlayerId)
    requires
        has_player_in(s, pid),
    ensures
        0 <= player_index_in(s, pid) < s.len(),
        s[player_index_in(s, pid)].player_id == pid,
    decreases s.len(),
{
    if s.len() > 0 && s[0].player_id != pid {
        lemma_player_index(s.skip(1), pid);
        assert(s.skip(1)[player_index_in(s.skip(1), pid)] == s[1 + player_index_in(s.skip(1), pid)]);
    }
}

/// Skipping a prefix without the player shifts the found index.
pub proof fn lemma_player_index_prefix(s: Seq<PlayerState>, pid: PlayerId, k: int)
    requires
        0 <= k <= s.len(),
        forall|j: int| 0 <= j < k ==> (#[trigger] s[j]).player_id != pid,
    ensures
        has_player_in(s, pid) == has_player_in(s.skip(k), pid),
        has_player_in(s, pid) ==> player_index_in(s, pid) == k + player_index_in(s.skip(k), pid),
    decreases k,
{
    if k == 0 {
        assert(s.skip(0) =~= s);
    } else {
        lemma_player_index_prefix(s.skip(1), pid, k - 1);
        assert forall|j: int| 0 <= j < k - 1 implies (#[trigger] s.skip(1)[j]).player_id != pid by {
            assert(s.skip(1)[j] == s[j + 1]);
        }
        assert(s.skip(1).skip(k - 1) =~= s.skip(k));
    }
}

/// Replacing one player with a well-formed player of the same identity
/// keeps the player list well-formed.
pub proof fn lemma_players_wf_update(s: Seq<PlayerState>, t: Seq<PlayerState>, k: int)
    requires
        0 <= k < s.len(),
        t == s.update(k, t[k]),
        t[k].wf(),
        t[k].player_id == s[k].player_id,
        forall|i: int| 0 <= i < s.len() ==> (#[trigger] s[i]).wf(),
        forall|i: int, j: int| 0 <= i < j < s.len()
            ==> (#[trigger] s[i]).player_id != (#[trigger] s[j]).player_id,
    ensures
        t.len() == s.len(),
        forall|i: int| 0 <= i < t.len() ==> (#[trigger] t[i]).wf(),
        forall|i: int, j: int| 0 <= i < j < t.len()
            ==> (#[trigger] t[i]).player_id != (#[trigger] t[j]).player_id,
{
    assert forall|i: int| 0 <= i < t.len() implies (#[trigger] t[i]).wf() by {
        if i != k {
            assert(t[i] == s[i]);
        }
    }
    assert forall|i: int, j: int| 0 <= i < j < t.len() implies
        (#[trigger] t[i]).player_id != (#[trigger] t[j]).player_id by {
        assert(t[i].player_id == s[i].player_id);
        assert(t[j].player_id == s[j].player_id);
    }
}

/// The whole game: the shared board, every player, and the two card piles.
#[derive(Clone, Debug, PartialEq, Eq)]
pub struct Game {
    pub board: MarsBoard,
    pub players: Vec<PlayerState>,
    pub draw_deck: Vec<Card>,
    pub discard_pile: Vec<Card>,
}

impl Game {
    /// The game invariant: the board invariant, every player's invariant,
    /// and distinct player identities.
    pub open spec fn wf(&self) -> bool {
        &&& self.board.wf()
        &&& forall|i: int| 0 <= i < self.players@.len() ==> (#[trigger] self.players@[i]).wf()
        &&& forall|i: int, j: int| 0 <= i < j < self.players@.len()
            ==> (#[trigger] self.players@[i]).player_id != (#[trigger] self.players@[j]).player_id
    }

    /// The first index holding the player, when present.
    fn find_player_index(&self, pid: PlayerId) -> (r: Option<usize>)
        ensures
            match r {
                Some(i) => has_player_in(self.players@, pid) && i == player_index_in(self.players@, pid)
                    && i < self.players@.len(),
                None => !has_player_in(self.players@, pid),
            },
    {
        let n = self.players.len();
        for i in 0..n
            invariant
                n == self.players@.len(),
                forall|j: int| 0 <= j < i ==> (#[trigger] self.players@[j]).player_id != pid,
        {
            if self.players[i].player_id == pid {
                proof {
                    lemma_player_index_prefix(self.players@, pid, i as int);
                    assert(self.players@.skip(i as int)[0] == self.players@[i as int]);
                }
                return Some(i);
            }
        }
        proof {
            lemma_player_index_prefix(self.players@, pid, n as int);
            assert(self.players@.skip(n as int) =~= Seq::<PlayerState>::empty());
        }
        None
    }
}

/// A mutable reference to one player.
fn player_at_mut(players: &mut Vec<PlayerState>, i: usize) -> (p: &mut PlayerState)
    requires
        i < old(players)@.len(),
    ensures
        *p == old(players)@[i as int],
        final(players)@ == old(players)@.update(i as int, *final(p)),
{
    &mut players[i]
}

/// Whether an operation's preconditions hold: the named player exists and
/// every bound the operation relies on is met. A violation is an upstream
/// bug, never a recoverable error.
pub open spec fn game_op_valid(g: Game, op: GameOperation) -> bool {
    match op {
        GameOperation::ChangeResource(pid, r, delta) => has_player_in(g.players@, pid) && {
            let p = g.players@[player_index_in(g.players@, pid)];
            0 <= p.resources.spec_get(r) + delta <= usize::MAX
        },
        GameOperation::ChangeProduction(pid, r, delta) => has_player_in(g.players@, pid) && {
            let p = g.players@[player_index_in(g.players@, pid)];
            &&& isize::MIN <= p.production.spec_get(r) + delta <= isize::MAX
            &&& (r == Resource::Megacredits ==> p.production.spec_get(r) + delta >= -(
            p.terraform_rating as int))
            &&& (r != Resource::Megacredits ==> p.production.spec_get(r) + delta >= 0)
        },
        GameOperation::ChangeCardResource(pid, card_index, kind, delta) => has_player_in(
            g.players@,
            pid,
        ) && {
            let p = g.players@[player_index_in(g.players@, pid)];
            &&& card_index < p.played_cards@.len()
            &&& card_supports_resource(p.played_cards@[card_index as int].deep_view(), kind)
            &&& 0 <= find_card_resource(p.card_resources@, card_index as int, kind) + delta
                <= usize::MAX
        },
        GameOperation::DrawCards(pid, n) => has_player_in(g.players@, pid) && n
            <= g.draw_deck@.len() + g.discard_pile@.len(),
        GameOperation::DiscardFromHand(pid, idx) => has_player_in(g.players@, pid) && idx
            < g.players@[player_index_in(g.players@, pid)].cards_in_hand@.len(),
        GameOperation::PutCardIntoPlay(pid, idx) => has_player_in(g.players@, pid) && {
            let p = g.players@[player_index_in(g.players@, pid)];
            &&& idx < p.cards_in_hand@.len()
            &&& p.steel_value + metals_increase(p.cards_in_hand@[idx as int].effects.deep_view())
                <= usize::MAX
            &&& p.titanium_value + metals_increase(p.cards_in_hand@[idx as int].effects.deep_view())
                <= usize::MAX
        },
        GameOperation::PlaceCityTile(pid, loc, _) => has_player_in(g.players@, pid) && loc.spec_wf()
            && (g.board.spec_tile_status(loc) matches TileStatus::Empty(_)),
        GameOperation::PlaceGreenery(pid, c) => has_player_in(g.players@, pid) && c.spec_in_bounds()
            && (g.board.spec_tile_status(TileLocation::OnMars(c)) matches TileStatus::Empty(_)),
        GameOperation::PlaceSpecialTile(pid, c, _) => has_player_in(g.players@, pid)
            && c.spec_in_bounds() && (g.board.spec_tile_status(TileLocation::OnMars(c)) matches
        TileStatus::Empty(_)),
        GameOperation::PlaceOcean(c) => c.spec_in_bounds() && (g.board.spec_tile_status(
            TileLocation::OnMars(c),
        ) matches TileStatus::Empty(_)) && g.board.oceans@.len() < MAX_OCEANS,
        GameOperation::RaiseTemperature => g.board.temperature + TEMPERATURE_STEP
            <= MAX_TEMPERATURE,
        GameOperation::RaiseOxygen => g.board.oxygen < MAX_OXYGEN,
        GameOperation::RaiseTerraformRating(pid, n) => has_player_in(g.players@, pid)
            && g.players@[player_index_in(g.players@, pid)].terraform_rating + n <= usize::MAX,
        GameOperation::AddEffect(pid, effect) => has_player_in(g.players@, pid) && {
            let p = g.players@[player_index_in(g.players@, pid)];
            let inc = match effect.deep_view() {
                CardEffectView::IncreasedMetalsValue(n) => n as int,
                _ => 0int,
            };
            p.steel_value + inc <= usize::MAX && p.titanium_value + inc <= usize::MAX
        },
        GameOperation::MarkCardActionUsed(pid, idx) => has_player_in(g.players@, pid) && idx
            < g.players@[player_index_in(g.players@, pid)].played_cards@.len(),
        GameOperation::ResetCardActions => true,
        GameOperation::ClaimMilestone(pid) => has_player_in(g.players@, pid),
        GameOperation::FundAward(pid) => has_player_in(g.players@, pid),
    }
}

/// Whether a card's printed shape supports holding tokens of the kind: one
/// of its own impacts or actions adds or spends tokens of that kind on the
/// card itself.
pub open spec fn card_supports_resource(c: CardView, kind: CardResource) -> bool {
    ||| exists|i: int| 0 <= i < c.immediate_impacts.len() && impact_adds_same(
        #[trigger] c.immediate_impacts[i],
        kind,
    )
    ||| exists|i: int| 0 <= i < c.actions.len() && action_uses_same(#[trigger] c.actions[i], kind)
    ||| exists|i: int| 0 <= i < c.effects.len() && effect_adds_same(#[trigger] c.effects[i], kind)
}

/// Whether an impact adds tokens of the kind to its own card.
pub open spec fn impact_adds_same(i: crate::card::ImmediateImpactView, kind: CardResource) -> bool {
    i matches crate::card::ImmediateImpactView::AddResourceToSameCard(k, _) && k == kind
}

/// Whether an action spends or adds tokens of the kind on its own card.
pub open spec fn action_uses_same(a: crate::card::CardActionView, kind: CardResource) -> bool {
    match a {
        crate::card::CardActionView::SpendSameCardResource(k, _, _) => k == kind,
        crate::card::CardActionView::CauseFreeImpact(i) => impact_adds_same(i, kind),
        crate::card::CardActionView::SpendResource(_, is) => exists|j: int|
            0 <= j < is.len() && impact_adds_same(#[trigger] is[j], kind),
        crate::card::CardActionView::SpendProduction(_, _, is) => exists|j: int|
            0 <= j < is.len() && impact_adds_same(#[trigger] is[j], kind),
        crate::card::CardActionView::TakeAnyCardResource(_, _, i) => impact_adds_same(i, kind),
        crate::card::CardActionView::RandomizeBasedOnRevealedCardTag(_, _, _, i) => impact_adds_same(
            i,
            kind,
        ),
    }
}

/// Whether an effect's triggered impact adds tokens of the kind to its own
/// card.
pub open spec fn effect_adds_same(e: CardEffectView, kind: CardResource) -> bool {
    match e {
        CardEffectView::OnAnyPlacedOcean(i) => impact_adds_same(i, kind),
        CardEffectView::OnAnyPlacedCity(i) => impact_adds_same(i, kind),
        CardEffectView::OnAnyTagPlayed(_, i) => impact_adds_same(i, kind),
        CardEffectView::OnOwnPlacedGreenery(i) => impact_adds_same(i, kind),
        CardEffectView::OnOwnTagPlayed(_, i) => impact_adds_same(i, kind),
        CardEffectView::OnOwnTagCombinationPlayed(_, is) => exists|j: int|
            0 <= j < is.len() && impact_adds_same(#[trigger] is[j], kind),
        _ => false,
    }
}

/// The exact state transition of one operation.
pub open spec fn game_op_applied(pre: Game, post: Game, op: GameOperation) -> bool {
    match op {
        GameOperation::ChangeResource(pid, r, delta) => {
            let k = player_index_in(pre.players@, pid);
            let p = pre.players@[k];
            post == (Game {
                players: post.players,
                ..pre
            }) && post.players@ == pre.players@.update(k, PlayerState {
                resources: p.resources.spec_with(r, (p.resources.spec_get(r) + delta) as usize),
                ..p
            })
        },
        GameOperation::ChangeProduction(pid, r, delta) => {
            let k = player_index_in(pre.players@, pid);
            let p = pre.players@[k];
            post == (Game { players: post.players, ..pre }) && post.players@ == pre.players@.update(
                k,
                PlayerState {
                    production: p.production.spec_with(r, (p.production.spec_get(r) + delta) as isize),
                    ..p
                },
            )
        },
        GameOperation::ChangeCardResource(pid, card_index, kind, delta) => {
            let k = player_index_in(pre.players@, pid);
            let p = pre.players@[k];
            let q = post.players@[k];
            &&& post == (Game { players: post.players, ..pre })
            &&& post.players@.len() == pre.players@.len()
            &&& forall|j: int| 0 <= j < pre.players@.len() && j != k
                ==> post.players@[j] == pre.players@[j]
            &&& q == (PlayerState { card_resources: q.card_resources, ..p })
            &&& find_card_resource(q.card_resources@, card_index as int, kind) == find_card_resource(
                p.card_resources@,
                card_index as int,
                kind,
            ) + delta
        },
        GameOperation::DrawCards(pid, n) => {
            let k = player_index_in(pre.players@, pid);
            let p = pre.players@[k];
            let q = post.players@[k];
            let pool = if n <= pre.draw_deck@.len() {
                pre.draw_deck@
            } else {
                pre.draw_deck@ + pre.discard_pile@
            };
            &&& post.board == pre.board
            &&& post.discard_pile@ == (if n <= pre.draw_deck@.len() {
                pre.discard_pile@
            } else {
                Seq::<Card>::empty()
            })
            &&& post.draw_deck@ == pool.subrange(0, pool.len() - n)
            &&& post.players@ == pre.players@.update(k, q)
            &&& q == (PlayerState { cards_in_hand: q.cards_in_hand, ..p })
            &&& q.cards_in_hand@ == p.cards_in_hand@ + pool.subrange(pool.len() - n, pool.len() as int)
        },
        GameOperation::DiscardFromHand(pid, idx) => {
            let k = player_index_in(pre.players@, pid);
            let p = pre.players@[k];
            let q = post.players@[k];
            &&& post.board == pre.board
            &&& post.draw_deck == pre.draw_deck
            &&& post.discard_pile@ == pre.discard_pile@.push(p.cards_in_hand@[idx as int])
            &&& post.players@ == pre.players@.update(k, q)
            &&& q == (PlayerState { cards_in_hand: q.cards_in_hand, ..p })
            &&& q.cards_in_hand@ == p.cards_in_hand@.remove(idx as int)
        },
        GameOperation::PutCardIntoPlay(pid, idx) => {
            let k = player_index_in(pre.players@, pid);
            let p = pre.players@[k];
            let q = post.players@[k];
            let card = p.cards_in_hand@[idx as int];
            &&& post == (Game { players: post.players, ..pre })
            &&& post.players@ == pre.players@.update(k, q)
            &&& q.cards_in_hand@ == p.cards_in_hand@.remove(idx as int)
            &&& q.played_cards@ == p.played_cards@.push(card)
            &&& q.effects.deep_view() == p.effects.deep_view() + card.effects.deep_view()
            &&& q.steel_value == p.steel_value + metals_increase(card.effects.deep_view())
            &&& q.titanium_value == p.titanium_value + metals_increase(card.effects.deep_view())
            &&& q.player_id == p.player_id
            &&& q.resources == p.resources
            &&& q.production == p.production
            &&& q.card_resources == p.card_resources
            &&& q.tapped_active_cards == p.tapped_active_cards
            &&& q.terraform_rating == p.terraform_rating
        },
        GameOperation::PlaceCityTile(pid, loc, kind) => {
            &&& post == (Game { board: post.board, ..pre })
            &&& post.board == (MarsBoard { cities: post.board.cities, ..pre.board })
            &&& post.board.cities@ == pre.board.cities@.push((loc, kind, pid))
        },
        GameOperation::PlaceGreenery(pid, c) => {
            &&& post == (Game { board: post.board, ..pre })
            &&& post.board == (MarsBoard { greeneries: post.board.greeneries, ..pre.board })
            &&& post.board.greeneries@ == pre.board.greeneries@.push((c, pid))
        },
        GameOperation::PlaceSpecialTile(pid, c, tile) => {
            &&& post == (Game { board: post.board, ..pre })
            &&& post.board == (MarsBoard { special_tiles: post.board.special_tiles, ..pre.board })
            &&& post.board.special_tiles@ == pre.board.special_tiles@.push((c, tile, pid))
        },
        GameOperation::PlaceOcean(c) => {
            &&& post == (Game { board: post.board, ..pre })
            &&& post.board == (MarsBoard { oceans: post.board.oceans, ..pre.board })
            &&& post.board.oceans@ == pre.board.oceans@.push(c)
        },
        GameOperation::RaiseTemperature => post == (Game {
            board: MarsBoard {
                temperature: (pre.board.temperature + TEMPERATURE_STEP) as isize,
                ..pre.board
            },
            ..pre
        }),
        GameOperation::RaiseOxygen => post == (Game {
            board: MarsBoard { oxygen: (pre.board.oxygen + 1) as usize, ..pre.board },
            ..pre
        }),
        GameOperation::RaiseTerraformRating(pid, n) => {
            let k = player_index_in(pre.players@, pid);
            let p = pre.players@[k];
            post == (Game { players: post.players, ..pre }) && post.players@ == pre.players@.update(
                k,
                PlayerState { terraform_rating: (p.terraform_rating + n) as usize, ..p },
            )
        },
        GameOperation::AddEffect(pid, effect) => {
            let k = player_index_in(pre.players@, pid);
            let p = pre.players@[k];
            let q = post.players@[k];
            &&& post == (Game { players: post.players, ..pre })
            &&& post.players@ == pre.players@.update(k, q)
            &&& q == (PlayerState {
                effects: q.effects,
                steel_value: q.steel_value,
                titanium_value: q.titanium_value,
                ..p
            })
            &&& q.effects@ == p.effects@.push(effect)
            &&& q.steel_value == p.steel_value + (match effect.deep_view() {
                CardEffectView::IncreasedMetalsValue(inc) => inc as int,
                _ => 0int,
            })
            &&& q.titanium_value == p.titanium_value + (match effect.deep_view() {
                CardEffectView::IncreasedMetalsValue(inc) => inc as int,
                _ => 0int,
            })
        },
        GameOperation::MarkCardActionUsed(pid, idx) => {
            let k = player_index_in(pre.players@, pid);
            let p = pre.players@[k];
            let q = post.players@[k];
            &&& post == (Game { players: post.players, ..pre })
            &&& post.players@ == pre.players@.update(k, q)
            &&& q == (PlayerState { tapped_active_cards: q.tapped_active_cards, ..p })
            &&& q.tapped_active_cards@ == (if p.tapped_active_cards@.contains(idx) {
                p.tapped_active_cards@
            } else {
                p.tapped_active_cards@.push(idx)
            })
        },
        GameOperation::ResetCardActions => {
            &&& post == (Game { players: post.players, ..pre })
            &&& post.players@.len() == pre.players@.len()
            &&& forall|j: int| 0 <= j < pre.players@.len()
                ==> (#[trigger] post.players@[j]) == (PlayerState {
                    tapped_active_cards: post.players@[j].tapped_active_cards,
                    ..pre.players@[j]
                })
            &&& forall|j: int| 0 <= j < pre.players@.len()
                ==> (#[trigger] post.players@[j]).tapped_active_cards@.len() == 0
        },
        GameOperation::ClaimMilestone(_) => post == pre,
        GameOperation::FundAward(_) => post == pre,
    }
}

impl Game {
    /// Applies one validated operation; the single mutation gateway of a
    /// game.
    pub fn execute_operation(&mut self, op: GameOperation)
        requires
            old(self).wf(),
            game_op_valid(*old(self), op),
        ensures
            game_op_applied(*old(self), *final(self), op),
            final(self).wf(),
    {
        match op {
            GameOperation::ChangeResource(pid, r, delta) => self.apply_change_resource(pid, r, delta),
            GameOperation::ChangeProduction(pid, r, delta) => self.apply_change_production(pid, r, delta),
            GameOperation::ChangeCardResource(pid, card_index, kind, delta) => self.apply_change_card_resource(pid, card_index, kind, delta),
            GameOperation::DrawCards(pid, n) => self.apply_draw_cards(pid, n),
            GameOperation::DiscardFromHand(pid, idx) => self.apply_discard_from_hand(pid, idx),
            GameOperation::PutCardIntoPlay(pid, idx) => self.apply_put_card_into_play(pid, idx),
            GameOperation::PlaceCityTile(pid, loc, kind) => self.board.place_city_tile(loc, kind, pid),
            GameOperation::PlaceGreenery(pid, c) => self.board.place_greenery(c, pid),
            GameOperation::PlaceSpecialTile(pid, c, tile) => self.board.place_special_tile(c, tile, pid),
            GameOperation::PlaceOcean(c) => self.board.place_ocean(c),
            GameOperation::RaiseTemperature => self.board.raise_temperature(),
            GameOperation::RaiseOxygen => self.board.raise_oxygen(),
            GameOperation::RaiseTerraformRating(pid, n) => self.apply_raise_terraform_rating(pid, n),
            GameOperation::AddEffect(pid, effect) => self.apply_add_effect(pid, effect),
            GameOperation::MarkCardActionUsed(pid, idx) => self.apply_mark_card_action_used(pid, idx),
            GameOperation::ResetCardActions => self.apply_reset_card_actions(),
            GameOperation::ClaimMilestone(_) => {}
            GameOperation::FundAward(_) => {}
        }
    }

    fn apply_change_resource(&mut self, pid: PlayerId, r: Resource, delta: isize)
        requires
            old(self).wf(),
            game_op_valid(*old(self), GameOperation::ChangeResource(pid, r, delta)),
        ensures
            game_op_applied(*old(self), *final(self), GameOperation::ChangeResource(pid, r, delta)),
            final(self).wf(),
    {
        proof {
            lemma_player_index(self.players@, pid);
        }
        let idx = self.find_player_index(pid).unwrap();
        let p = player_at_mut(&mut self.players, idx);
        p.change_resource(r, delta);
        proof {
            lemma_players_wf_update(old(self).players@, self.players@, idx as int);
        }
    }

    fn apply_change_production(&mut self, pid: PlayerId, r: Resource, delta: isize)
        requires
            old(self).wf(),
            game_op_valid(*old(self), GameOperation::ChangeProduction(pid, r, delta)),
        ensures
            game_op_applied(*old(self), *final(self), GameOperation::ChangeProduction(pid, r, delta)),
            final(self).wf(),
    {
        proof {
            lemma_player_index(self.players@, pid);
        }
        let idx = self.find_player_index(pid).unwrap();
        let p = player_at_mut(&mut self.players, idx);
        p.change_production(r, delta);
        proof {
            lemma_players_wf_update(old(self).players@, self.players@, idx as int);
        }
    }

    fn apply_change_card_resource(
        &mut self,
        pid: PlayerId,
        card_index: usize,
        kind: CardResource,
        delta: isize,
    )
        requires
            old(self).wf(),
            game_op_valid(
                *old(self),
                GameOperation::ChangeCardResource(pid, card_index, kind, delta),
            ),
        ensures
            game_op_applied(
                *old(self),
                *final(self),
                GameOperation::ChangeCardResource(pid, card_index, kind, delta),
            ),
            final(self).wf(),
    {
        proof {
            lemma_player_index(self.players@, pid);
        }
        let idx = self.find_player_index(pid).unwrap();
        let p = player_at_mut(&mut self.players, idx);
        p.change_card_resource(card_index, kind, delta);
        proof {
            lemma_players_wf_update(old(self).players@, self.players@, idx as int);
            assert forall|j: int| 0 <= j < old(self).players@.len() && j != idx as int implies
                self.players@[j] == old(self).players@[j] by {
            }
        }
    }

    fn apply_draw_cards(&mut self, pid: PlayerId, n: usize)
        requires
            old(self).wf(),
            game_op_valid(*old(self), GameOperation::DrawCards(pid, n)),
        ensures
            game_op_applied(*old(self), *final(self), GameOperation::DrawCards(pid, n)),
            final(self).wf(),
    {
        proof {
            lemma_player_index(self.players@, pid);
        }
        let idx = self.find_player_index(pid).unwrap();
        let deck_len = self.draw_deck.len();
        let ghost pool = if n <= old(self).draw_deck@.len() {
            old(self).draw_deck@
        } else {
            old(self).draw_deck@ + old(self).discard_pile@
        };
        if n > deck_len {
            // One reshuffle: the discard pile joins the deck.
            self.draw_deck.append(&mut self.discard_pile);
            proof {
                assert(self.draw_deck@ =~= pool);
            }
        }
        let split_at = self.draw_deck.len() - n;
        let mut drawn = self.draw_deck.split_off(split_at);
        let p = player_at_mut(&mut self.players, idx);
        p.cards_in_hand.append(&mut drawn);
        proof {
            lemma_players_wf_update(old(self).players@, self.players@, idx as int);
        }
    }

    fn apply_discard_from_hand(&mut self, pid: PlayerId, idx_in_hand: usize)
        requires
            old(self).wf(),
            game_op_valid(*old(self), GameOperation::DiscardFromHand(pid, idx_in_hand)),
        ensures
            game_op_applied(*old(self), *final(self), GameOperation::DiscardFromHand(pid, idx_in_hand)),
            final(self).wf(),
    {
        proof {
            lemma_player_index(self.players@, pid);
        }
        let idx = self.find_player_index(pid).unwrap();
        let p = player_at_mut(&mut self.players, idx);
        let card = p.cards_in_hand.remove(idx_in_hand);
        self.discard_pile.push(card);
        proof {
            lemma_players_wf_update(old(self).players@, self.players@, idx as int);
        }
    }

    fn apply_put_card_into_play(&mut self, pid: PlayerId, idx_in_hand: usize)
        requires
            old(self).wf(),
            game_op_valid(*old(self), GameOperation::PutCardIntoPlay(pid, idx_in_hand)),
        ensures
            game_op_applied(*old(self), *final(self), GameOperation::PutCardIntoPlay(pid, idx_in_hand)),
            final(self).wf(),
    {
        proof {
            lemma_player_index(self.players@, pid);
        }
        let idx = self.find_player_index(pid).unwrap();
        let p = player_at_mut(&mut self.players, idx);
        let card = p.cards_in_hand.remove(idx_in_hand);
        p.adopt_card(card);
        proof {
            crate::game::lemma_metals_increase_nonneg(
                old(self).players@[idx as int].cards_in_hand@[idx_in_hand as int].effects.deep_view(),
            );
            lemma_players_wf_update(old(self).players@, self.players@, idx as int);
        }
    }

    fn apply_raise_terraform_rating(&mut self, pid: PlayerId, n: usize)
        requires
            old(self).wf(),
            game_op_valid(*old(self), GameOperation::RaiseTerraformRating(pid, n)),
        ensures
            game_op_applied(*old(self), *final(self), GameOperation::RaiseTerraformRating(pid, n)),
            final(self).wf(),
    {
        proof {
            lemma_player_index(self.players@, pid);
        }
        let idx = self.find_player_index(pid).unwrap();
        let p = player_at_mut(&mut self.players, idx);
        p.terraform_rating = p.terraform_rating + n;
        proof {
            lemma_players_wf_update(old(self).players@, self.players@, idx as int);
        }
    }

    fn apply_add_effect(&mut self, pid: PlayerId, effect: CardEffect)
        requires
            old(self).wf(),
            game_op_valid(*old(self), GameOperation::AddEffect(pid, effect)),
        ensures
            ({
                let k = player_index_in(old(self).players@, pid);
                let p = old(self).players@[k];
                let q = final(self).players@[k];
                &&& *final(self) == (Game { players: final(self).players, ..*old(self) })
                &&& final(self).players@ == old(self).players@.update(k, q)
                &&& q == (PlayerState {
                    effects: q.effects,
                    steel_value: q.steel_value,
                    titanium_value: q.titanium_value,
                    ..p
                })
                &&& q.effects@ == p.effects@.push(effect)
                &&& q.steel_value == p.steel_value + (match effect.deep_view() {
                    CardEffectView::IncreasedMetalsValue(inc) => inc as int,
                    _ => 0int,
                })
                &&& q.titanium_value == p.titanium_value + (match effect.deep_view() {
                    CardEffectView::IncreasedMetalsValue(inc) => inc as int,
                    _ => 0int,
                })
            }),
            final(self).wf(),
    {
        proof {
            lemma_player_index(self.players@, pid);
        }
        let idx = self.find_player_index(pid).unwrap();
        let p = player_at_mut(&mut self.players, idx);
        let bump: usize = match &effect {
            CardEffect::IncreasedMetalsValue(inc) => *inc,
            _ => 0,
        };
        p.steel_value = p.steel_value + bump;
        p.titanium_value = p.titanium_value + bump;
        p.effects.push(effect);
        proof {
            lemma_players_wf_update(old(self).players@, self.players@, idx as int);
        }
    }

    fn apply_mark_card_action_used(&mut self, pid: PlayerId, card_index: usize)
        requires
            old(self).wf(),
            game_op_valid(*old(self), GameOperation::MarkCardActionUsed(pid, card_index)),
        ensures
            game_op_applied(*old(self), *final(self), GameOperation::MarkCardActionUsed(pid, card_index)),
            final(self).wf(),
    {
        proof {
            lemma_player_index(self.players@, pid);
        }
        let idx = self.find_player_index(pid).unwrap();
        let p = player_at_mut(&mut self.players, idx);
        p.mark_card_action_used(card_index);
        proof {
            lemma_players_wf_update(old(self).players@, self.players@, idx as int);
        }
    }

    #[verifier::loop_isolation(false)]
    fn apply_reset_card_actions(&mut self)
        requires
            old(self).wf(),
        ensures
            game_op_applied(*old(self), *final(self), GameOperation::ResetCardActions),
            final(self).wf(),
    {
        let n = self.players.len();
        for i in 0..n
            invariant
                n == self.players@.len(),
                forall|j: int| i <= j < n ==> #[trigger] self.players@[j] == old(self).players@[j],
                forall|j: int| 0 <= j < i ==> (#[trigger] self.players@[j]) == (PlayerState {
                    tapped_active_cards: self.players@[j].tapped_active_cards,
                    ..old(self).players@[j]
                }),
                forall|j: int| 0 <= j < i
                    ==> (#[trigger] self.players@[j]).tapped_active_cards@.len() == 0,
                self.board == old(self).board,
                self.draw_deck == old(self).draw_deck,
                self.discard_pile == old(self).discard_pile,
        {
            let p = player_at_mut(&mut self.players, i);
            p.reset_card_actions();
        }
    }
}

} // verus!