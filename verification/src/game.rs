//! Per-player state: economy, hand, played cards, card-bound resource pools,
//! and the scoring, purchasing and generation-advance rules.
use vstd::prelude::*;

use crate::card::{dup_cards, dup_copy_vec, dup_effect, dup_effects, Card, CityKind, VictoryPointValue, CardAction, CardActionView, CardEffect, CardEffectView, CardKind, CardRequirement, CardTag, CardView};
use crate::board::{count_greenery_statuses, count_ocean_statuses, Coordinates, MarsBoard, TileLocation, TileStatus};
use crate::resource::{CardResource, PaymentCost, ProductionLevels, Resource, ResourceBank};

verus! {

/// The identity of a player.
#[derive(Clone, Copy, Debug, PartialEq, Eq, Structural)]
pub struct PlayerId(pub usize);

impl DeepView for PlayerId {
    type V = PlayerId;

    open spec fn deep_view(&self) -> PlayerId {
        *self
    }
}

/// A quantity of resource tokens of one kind sitting on one played card,
/// identified by the card's index in the player's played-card list.
#[derive(Clone, Copy, Debug, PartialEq, Eq, Structural)]
pub struct CardResourceEntry {
    /// Index into the owning player's played cards.
    pub card_index: usize,
    pub kind: CardResource,
    pub amount: usize,
}

impl DeepView for CardResourceEntry {
    type V = CardResourceEntry;

    open spec fn deep_view(&self) -> CardResourceEntry {
        *self
    }
}

/// The per-player economy: balances, production, played cards and hand,
/// card-bound resource pools, tap-state of active cards, terraform rating,
/// metal conversion values, and the passive effects in play.
///
/// Card-bound resource pools and the tap-state refer to played cards by index
/// into `played_cards`, so two structurally identical cards stay distinct.
#[derive(Clone, Debug, PartialEq, Eq)]
pub struct PlayerState {
    pub player_id: PlayerId,
    pub resources: ResourceBank,
    pub production: ProductionLevels,
    pub played_cards: Vec<Card>,
    pub card_resources: Vec<CardResourceEntry>,
    /// Indexes into `played_cards` of active cards already used this
    /// generation.
    pub tapped_active_cards: Vec<usize>,
    pub cards_in_hand: Vec<Card>,
    pub terraform_rating: usize,
    pub steel_value: usize,
    pub titanium_value: usize,
    /// The passive effects contributed by played cards.
    pub effects: Vec<CardEffect>,
}

/// The specification-level mirror of [`PlayerState`].
pub struct PlayerStateView {
    pub player_id: PlayerId,
    pub resources: ResourceBank,
    pub production: ProductionLevels,
    pub played_cards: Seq<CardView>,
    pub card_resources: Seq<CardResourceEntry>,
    pub tapped_active_cards: Seq<usize>,
    pub cards_in_hand: Seq<CardView>,
    pub terraform_rating: usize,
    pub steel_value: usize,
    pub titanium_value: usize,
    pub effects: Seq<CardEffectView>,
}

impl DeepView for PlayerState {
    type V = PlayerStateView;

    open spec fn deep_view(&self) -> PlayerStateView {
        PlayerStateView {
            player_id: self.player_id,
            resources: self.resources,
            production: self.production,
            played_cards: self.played_cards.deep_view(),
            card_resources: self.card_resources.deep_view(),
            tapped_active_cards: self.tapped_active_cards.deep_view(),
            cards_in_hand: self.cards_in_hand.deep_view(),
            terraform_rating: self.terraform_rating,
            steel_value: self.steel_value,
            titanium_value: self.titanium_value,
            effects: self.effects.deep_view(),
        }
    }
}

impl PlayerState {
    /// The non-negativity invariant: every production level except
    /// megacredits is non-negative, and megacredit production never drops
    /// below the negated terraform rating; card-resource entries and
    /// tap-state entries point at played cards, each at most once.
    pub open spec fn wf(&self) -> bool {
        &&& self.production.steel >= 0
        &&& self.production.titanium >= 0
        &&& self.production.plants >= 0
        &&& self.production.energy >= 0
        &&& self.production.heat >= 0
        &&& self.production.megacredits >= -(self.terraform_rating as int)
        &&& forall|i: int| 0 <= i < self.card_resources@.len()
            ==> (#[trigger] self.card_resources@[i]).card_index < self.played_cards@.len()
        &&& forall|i: int, j: int| 0 <= i < j < self.card_resources@.len()
            ==> ((#[trigger] self.card_resources@[i]).card_index, self.card_resources@[i].kind)
                != ((#[trigger] self.card_resources@[j]).card_index, self.card_resources@[j].kind)
        &&& forall|i: int| 0 <= i < self.tapped_active_cards@.len()
            ==> (#[trigger] self.tapped_active_cards@[i]) < self.played_cards@.len()
        &&& forall|i: int, j: int| 0 <= i < j < self.tapped_active_cards@.len()
            ==> (#[trigger] self.tapped_active_cards@[i]) != (#[trigger] self.tapped_active_cards@[j])
        &&& self.steel_value >= 1
        &&& self.titanium_value >= 1
    }
}

/// Megacredits paid per card purchased into the hand.
pub const CARD_PURCHASE_COST: usize = 3;

/// The terraform rating every player starts with.
pub const DEFAULT_STARTING_TERRAFORM_RATING: usize = 20;

/// The terraform rating a solo player starts with.
pub const DEFAULT_SOLO_STARTING_TERRAFORM_RATING: usize = 14;

/// The base megacredit value of one steel when paying a building cost.
pub const DEFAULT_STEEL_VALUE: usize = 2;

/// The base megacredit value of one titanium when paying a space cost.
pub const DEFAULT_TITANIUM_VALUE: usize = 3;

/// The tags of all non-event cards, in card order; tags on event cards are
/// not in play.
pub open spec fn non_event_tags(cards: Seq<CardView>) -> Seq<CardTag>
    decreases cards.len(),
{
    if cards.len() == 0 {
        Seq::empty()
    } else {
        (if cards[0].kind == CardKind::Event {
            Seq::<CardTag>::empty()
        } else {
            cards[0].tags
        }) + non_event_tags(cards.skip(1))
    }
}

/// Appending a card appends its non-event tags.
pub proof fn lemma_non_event_tags_push(cards: Seq<CardView>, c: CardView)
    ensures
        non_event_tags(cards.push(c)) == non_event_tags(cards) + (if c.kind == CardKind::Event {
            Seq::<CardTag>::empty()
        } else {
            c.tags
        }),
    decreases cards.len(),
{
    if cards.len() == 0 {
        assert(cards.push(c).skip(1) =~= Seq::<CardView>::empty());
        assert(cards.push(c)[0] == c);
        assert(non_event_tags(cards.push(c)) == (if c.kind == CardKind::Event {
            Seq::<CardTag>::empty()
        } else {
            c.tags
        }) + non_event_tags(Seq::<CardView>::empty()));
        assert(non_event_tags(cards) =~= Seq::<CardTag>::empty());
        assert(non_event_tags(cards.push(c)) =~= non_event_tags(cards) + (if c.kind == CardKind::Event {
            Seq::<CardTag>::empty()
        } else {
            c.tags
        }));
    } else {
        lemma_non_event_tags_push(cards.skip(1), c);
        assert(cards.push(c).skip(1) =~= cards.skip(1).push(c));
        assert(cards.push(c)[0] == cards[0]);
        assert(non_event_tags(cards.push(c)) == (if cards[0].kind == CardKind::Event {
            Seq::<CardTag>::empty()
        } else {
            cards[0].tags
        }) + non_event_tags(cards.skip(1).push(c)));
        assert(non_event_tags(cards) == (if cards[0].kind == CardKind::Event {
            Seq::<CardTag>::empty()
        } else {
            cards[0].tags
        }) + non_event_tags(cards.skip(1)));
        assert(non_event_tags(cards.push(c)) =~= non_event_tags(cards) + (if c.kind == CardKind::Event {
            Seq::<CardTag>::empty()
        } else {
            c.tags
        }));
    }
}

/// How many tags in the sequence equal the given tag.
pub open spec fn count_tag(tags: Seq<CardTag>, t: CardTag) -> int
    decreases tags.len(),
{
    if tags.len() == 0 {
        0
    } else {
        (if tags[0] == t { 1int } else { 0int }) + count_tag(tags.skip(1), t)
    }
}

/// How many tags in the sequence equal the given tag or are wild.
pub open spec fn count_tag_or_wild(tags: Seq<CardTag>, t: CardTag) -> int
    decreases tags.len(),
{
    if tags.len() == 0 {
        0
    } else {
        (if tags[0] == t || tags[0] == CardTag::Wild { 1int } else { 0int })
            + count_tag_or_wild(tags.skip(1), t)
    }
}

/// How many cards are events.
pub open spec fn count_events(cards: Seq<CardView>) -> int
    decreases cards.len(),
{
    if cards.len() == 0 {
        0
    } else {
        (if cards[0].kind == CardKind::Event { 1int } else { 0int }) + count_events(cards.skip(1))
    }
}

/// Appending one tag adds its contribution to both tag counters.
pub proof fn lemma_count_tag_push(tags: Seq<CardTag>, t: CardTag, x: CardTag)
    ensures
        count_tag(tags.push(x), t) == count_tag(tags, t) + (if x == t { 1int } else { 0int }),
        count_tag_or_wild(tags.push(x), t) == count_tag_or_wild(tags, t) + (if x == t || x == CardTag::Wild { 1int } else { 0int }),
    decreases tags.len(),
{
    if tags.len() == 0 {
        assert(tags.push(x).skip(1) =~= Seq::<CardTag>::empty());
        assert(tags.push(x)[0] == x);
        assert(count_tag(tags.push(x).skip(1), t) == 0);
        assert(count_tag(tags, t) == 0);
        assert(count_tag_or_wild(tags.push(x).skip(1), t) == 0);
        assert(count_tag_or_wild(tags, t) == 0);
    } else {
        lemma_count_tag_push(tags.skip(1), t, x);
        assert(tags.push(x).skip(1) =~= tags.skip(1).push(x));
        assert(tags.push(x)[0] == tags[0]);
        assert(count_tag(tags.push(x), t) == (if tags[0] == t { 1int } else { 0int })
            + count_tag(tags.skip(1).push(x), t));
        assert(count_tag(tags, t) == (if tags[0] == t { 1int } else { 0int })
            + count_tag(tags.skip(1), t));
        assert(count_tag_or_wild(tags.push(x), t) == (if tags[0] == t || tags[0] == CardTag::Wild { 1int } else { 0int })
            + count_tag_or_wild(tags.skip(1).push(x), t));
        assert(count_tag_or_wild(tags, t) == (if tags[0] == t || tags[0] == CardTag::Wild { 1int } else { 0int })
            + count_tag_or_wild(tags.skip(1), t));
    }
}

/// Appending one card adds its contribution to the event counter.
pub proof fn lemma_count_events_push(cards: Seq<CardView>, c: CardView)
    ensures
        count_events(cards.push(c)) == count_events(cards) + (if c.kind == CardKind::Event { 1int } else { 0int }),
    decreases cards.len(),
{
    if cards.len() == 0 {
        assert(cards.push(c).skip(1) =~= Seq::<CardView>::empty());
        assert(cards.push(c)[0] == c);
        assert(count_events(cards.push(c).skip(1)) == 0);
        assert(count_events(cards) == 0);
    } else {
        lemma_count_events_push(cards.skip(1), c);
        assert(cards.push(c).skip(1) =~= cards.skip(1).push(c));
        assert(cards.push(c)[0] == cards[0]);
        assert(count_events(cards.push(c)) == (if cards[0].kind == CardKind::Event { 1int } else { 0int })
            + count_events(cards.skip(1).push(c)));
        assert(count_events(cards) == (if cards[0].kind == CardKind::Event { 1int } else { 0int })
            + count_events(cards.skip(1)));
    }
}

/// Both tag counters stay between zero and the sequence length.
pub proof fn lemma_count_tag_bounds(tags: Seq<CardTag>, t: CardTag)
    ensures
        0 <= count_tag(tags, t) <= tags.len(),
        0 <= count_tag_or_wild(tags, t) <= tags.len(),
    decreases tags.len(),
{
    if tags.len() > 0 {
        lemma_count_tag_bounds(tags.skip(1), t);
    }
}

/// The event counter stays between zero and the sequence length.
pub proof fn lemma_count_events_bounds(cards: Seq<CardView>)
    ensures
        0 <= count_events(cards) <= cards.len(),
    decreases cards.len(),
{
    if cards.len() > 0 {
        lemma_count_events_bounds(cards.skip(1));
    }
}

/// The passive effects of a list of cards, concatenated in card order.
pub open spec fn concat_effects(cards: Seq<CardView>) -> Seq<CardEffectView>
    decreases cards.len(),
{
    if cards.len() == 0 {
        Seq::empty()
    } else {
        cards[0].effects + concat_effects(cards.skip(1))
    }
}

/// Appending a card appends its effects.
pub proof fn lemma_concat_effects_push(cards: Seq<CardView>, c: CardView)
    ensures
        concat_effects(cards.push(c)) == concat_effects(cards) + c.effects,
    decreases cards.len(),
{
    if cards.len() == 0 {
        assert(cards.push(c).skip(1) =~= Seq::<CardView>::empty());
        assert(cards.push(c)[0] == c);
        assert(concat_effects(cards.push(c)) == c.effects + concat_effects(Seq::<CardView>::empty()));
        assert(concat_effects(cards.push(c)) =~= concat_effects(cards) + c.effects);
    } else {
        lemma_concat_effects_push(cards.skip(1), c);
        assert(cards.push(c).skip(1) =~= cards.skip(1).push(c));
        assert(cards.push(c)[0] == cards[0]);
        assert(concat_effects(cards.push(c)) == cards[0].effects + concat_effects(cards.skip(1).push(c)));
        assert(concat_effects(cards) == cards[0].effects + concat_effects(cards.skip(1)));
        assert(concat_effects(cards.push(c)) =~= concat_effects(cards) + c.effects);
    }
}

/// The total metal-value increase contributed by the effects.
pub open spec fn metals_increase(effects: Seq<CardEffectView>) -> int
    decreases effects.len(),
{
    if effects.len() == 0 {
        0
    } else {
        (match effects[0] {
            CardEffectView::IncreasedMetalsValue(n) => n as int,
            _ => 0int,
        }) + metals_increase(effects.skip(1))
    }
}

/// The metal-value increase of a sequence of effects is never negative.
pub proof fn lemma_metals_increase_nonneg(effects: Seq<CardEffectView>)
    ensures
        metals_increase(effects) >= 0,
    decreases effects.len(),
{
    if effects.len() > 0 {
        lemma_metals_increase_nonneg(effects.skip(1));
    }
}

impl PlayerState {
    /// The tags of the player's played non-event cards, in card order.
    pub fn get_played_non_event_tags(&self) -> (r: Vec<CardTag>)
        ensures
            r@ == non_event_tags(self.played_cards.deep_view()),
    {
        let ghost cs = self.played_cards.deep_view();
        let mut r: Vec<CardTag> = Vec::new();
        let n = self.played_cards.len();
        proof {
            assert(cs.subrange(0, 0) =~= Seq::<CardView>::empty());
            assert(r@ =~= non_event_tags(cs.subrange(0, 0)));
        }
        for i in 0..n
            invariant
                n == self.played_cards@.len(),
                cs == self.played_cards.deep_view(),
                r@ == non_event_tags(cs.subrange(0, i as int)),
        {
            let card = &self.played_cards[i];
            proof {
                lemma_non_event_tags_push(cs.subrange(0, i as int), cs[i as int]);
                assert(cs.subrange(0, i as int + 1) =~= cs.subrange(0, i as int).push(cs[i as int]));
                assert(cs[i as int] == self.played_cards@[i as int].deep_view());
            }
            if !matches!(card.kind, CardKind::Event) {
                let m = card.tags.len();
                let ghost base = r@;
                for j in 0..m
                    invariant
                        m == card.tags@.len(),
                        r@ == base + card.tags@.subrange(0, j as int),
                {
                    r.push(card.tags[j]);
                    proof {
                        assert(r@ =~= base + card.tags@.subrange(0, j as int + 1));
                    }
                }
                proof {
                    assert(card.tags@.subrange(0, m as int) =~= card.tags@);
                    assert(cs[i as int].tags =~= card.tags@);
                    assert(r@ =~= non_event_tags(cs.subrange(0, i as int + 1)));
                }
            } else {
                proof {
                    assert(r@ =~= non_event_tags(cs.subrange(0, i as int + 1)));
                }
            }
        }
        proof {
            assert(cs.subrange(0, n as int) =~= cs);
        }
        r
    }

    /// How many played cards are events.
    pub fn played_event_count(&self) -> (r: usize)
        ensures
            r == count_events(self.played_cards.deep_view()),
    {
        let ghost cs = self.played_cards.deep_view();
        let mut count: usize = 0;
        let n = self.played_cards.len();
        proof {
            assert(cs.subrange(0, 0) =~= Seq::<CardView>::empty());
        }
        for i in 0..n
            invariant
                n == self.played_cards@.len(),
                cs == self.played_cards.deep_view(),
                count == count_events(cs.subrange(0, i as int)),
                count <= i,
        {
            proof {
                lemma_count_events_push(cs.subrange(0, i as int), cs[i as int]);
                assert(cs.subrange(0, i as int + 1) =~= cs.subrange(0, i as int).push(cs[i as int]));
            }
            if matches!(self.played_cards[i].kind, CardKind::Event) {
                count += 1;
            }
        }
        proof {
            assert(cs.subrange(0, n as int) =~= cs);
        }
        count
    }

    /// How many in-play (non-event) tags match the given tag. Event cards'
    /// tags are never counted, and the `Event` tag itself may not be queried.
    pub fn active_tag_count(&self, tag_kind: CardTag) -> (r: usize)
        requires
            tag_kind != CardTag::Event,
        ensures
            r == count_tag(non_event_tags(self.played_cards.deep_view()), tag_kind),
    {
        let tags = self.get_played_non_event_tags();
        let ghost ts = tags@;
        let mut count: usize = 0;
        let n = tags.len();
        proof {
            assert(ts.subrange(0, 0) =~= Seq::<CardTag>::empty());
        }
        for i in 0..n
            invariant
                n == tags@.len(),
                ts == tags@,
                count == count_tag(ts.subrange(0, i as int), tag_kind),
                count <= i,
        {
            proof {
                lemma_count_tag_push(ts.subrange(0, i as int), tag_kind, ts[i as int]);
                assert(ts.subrange(0, i as int + 1) =~= ts.subrange(0, i as int).push(ts[i as int]));
            }
            if tags[i] == tag_kind {
                count += 1;
            }
        }
        proof {
            assert(ts.subrange(0, n as int) =~= ts);
        }
        count
    }

    /// How many in-play tags match the given tag, counting wild tags as
    /// matching; used only for action-eligibility checks, never for scoring.
    pub fn active_tag_count_for_action(&self, tag_kind: CardTag) -> (r: usize)
        requires
            tag_kind != CardTag::Event,
        ensures
            r == count_tag_or_wild(non_event_tags(self.played_cards.deep_view()), tag_kind),
    {
        let tags = self.get_played_non_event_tags();
        let ghost ts = tags@;
        let mut count: usize = 0;
        let n = tags.len();
        proof {
            assert(ts.subrange(0, 0) =~= Seq::<CardTag>::empty());
        }
        for i in 0..n
            invariant
                n == tags@.len(),
                ts == tags@,
                count == count_tag_or_wild(ts.subrange(0, i as int), tag_kind),
                count <= i,
        {
            proof {
                lemma_count_tag_push(ts.subrange(0, i as int), tag_kind, ts[i as int]);
                assert(ts.subrange(0, i as int + 1) =~= ts.subrange(0, i as int).push(ts[i as int]));
            }
            if tags[i] == tag_kind || tags[i] == CardTag::Wild {
                count += 1;
            }
        }
        proof {
            assert(ts.subrange(0, n as int) =~= ts);
        }
        count
    }

    /// Makes a copy of the player state with the same deep view.
    pub fn duplicate(&self) -> (r: PlayerState)
        ensures
            r.deep_view() == self.deep_view(),
            self.wf() ==> r.wf(),
    {
        let r = PlayerState {
            player_id: self.player_id,
            resources: self.resources,
            production: self.production,
            played_cards: dup_cards(&self.played_cards),
            card_resources: dup_copy_vec(&self.card_resources),
            tapped_active_cards: dup_copy_vec(&self.tapped_active_cards),
            cards_in_hand: dup_cards(&self.cards_in_hand),
            terraform_rating: self.terraform_rating,
            steel_value: self.steel_value,
            titanium_value: self.titanium_value,
            effects: dup_effects(&self.effects),
        };
        proof {
            assert forall|i: int| 0 <= i < r.card_resources@.len() implies
                r.card_resources@[i] == self.card_resources@[i] by {
                assert(r.card_resources.deep_view()[i] == self.card_resources.deep_view()[i]);
            }
            assert(r.card_resources@ =~= self.card_resources@);
            assert forall|i: int| 0 <= i < r.tapped_active_cards@.len() implies
                r.tapped_active_cards@[i] == self.tapped_active_cards@[i] by {
                assert(r.tapped_active_cards.deep_view()[i] == self.tapped_active_cards.deep_view()[i]);
            }
            assert(r.tapped_active_cards@ =~= self.tapped_active_cards@);
            assert(r.played_cards.deep_view().len() == self.played_cards.deep_view().len());
            assert(r.played_cards@.len() == self.played_cards@.len());
        }
        r
    }

    /// Purchases cards into the hand for the fixed per-card price; fails
    /// without mutating anything when the megacredit balance is too small.
    pub fn purchase_cards(&mut self, cards: Vec<Card>) -> (r: Option<()>)
        ensures
            (r is Some) <==> CARD_PURCHASE_COST * cards@.len() <= old(self).resources.megacredits,
            r is None ==> *final(self) == *old(self),
            r is Some ==> *final(self) == (PlayerState {
                resources: old(self).resources.spec_with(
                    Resource::Megacredits,
                    (old(self).resources.megacredits - CARD_PURCHASE_COST * cards@.len()) as usize,
                ),
                cards_in_hand: final(self).cards_in_hand,
                ..*old(self)
            }),
            r is Some ==> final(self).cards_in_hand@ == old(self).cards_in_hand@ + cards@,
            old(self).wf() ==> final(self).wf(),
    {
        let megacredits_balance = self.resources.megacredits;
        let count = cards.len();
        if (megacredits_balance as u128) < (count as u128) * (CARD_PURCHASE_COST as u128) {
            proof {
                assert(CARD_PURCHASE_COST * cards@.len() > old(self).resources.megacredits);
            }
            None
        } else {
            let megacredits_cost = count * CARD_PURCHASE_COST;
            let mut cards = cards;
            self.cards_in_hand.append(&mut cards);
            self.resources.megacredits = megacredits_balance - megacredits_cost;
            Some(())
        }
    }

    /// Advances the player to the next generation: energy converts to heat,
    /// megacredits grow by the terraform rating, production is applied, and
    /// the tap-state of active cards is cleared.
    pub fn advance_generation(&mut self)
        requires
            old(self).wf(),
            old(self).resources.megacredits + old(self).terraform_rating
                + old(self).production.megacredits <= usize::MAX,
            old(self).resources.steel + old(self).production.steel <= usize::MAX,
            old(self).resources.titanium + old(self).production.titanium <= usize::MAX,
            old(self).resources.plants + old(self).production.plants <= usize::MAX,
            old(self).production.energy <= usize::MAX,
            old(self).resources.heat + old(self).resources.energy + old(self).production.heat
                <= usize::MAX,
        ensures
            generation_advanced(*old(self), *final(self)),
            final(self).wf(),
    {
        let tr = self.terraform_rating;
        let res = self.resources;
        let prod = self.production;
        let new_megacredits = (res.megacredits as i128) + (tr as i128) + (prod.megacredits as i128);
        let new_steel = (res.steel as i128) + (prod.steel as i128);
        let new_titanium = (res.titanium as i128) + (prod.titanium as i128);
        let new_plants = (res.plants as i128) + (prod.plants as i128);
        let new_energy = prod.energy as i128;
        let new_heat = (res.heat as i128) + (res.energy as i128) + (prod.heat as i128);
        self.resources = ResourceBank {
            megacredits: new_megacredits as usize,
            steel: new_steel as usize,
            titanium: new_titanium as usize,
            plants: new_plants as usize,
            energy: new_energy as usize,
            heat: new_heat as usize,
        };
        self.tapped_active_cards.clear();
        proof {
            assert(final(self).tapped_active_cards@ =~= Seq::<usize>::empty());
        }
    }
}

/// The relation between a player state and the state after one generation
/// advance: energy becomes heat, megacredits grow by the terraform rating,
/// production is applied to every balance, the tap-state empties, and
/// everything else is unchanged.
pub open spec fn generation_advanced(pre: PlayerState, post: PlayerState) -> bool {
    &&& post.resources.megacredits == pre.resources.megacredits + pre.terraform_rating
        + pre.production.megacredits
    &&& post.resources.steel == pre.resources.steel + pre.production.steel
    &&& post.resources.titanium == pre.resources.titanium + pre.production.titanium
    &&& post.resources.plants == pre.resources.plants + pre.production.plants
    &&& post.resources.energy == pre.production.energy
    &&& post.resources.heat == pre.resources.heat + pre.resources.energy + pre.production.heat
    &&& post.tapped_active_cards@.len() == 0
    &&& post.player_id == pre.player_id
    &&& post.production == pre.production
    &&& post.played_cards == pre.played_cards
    &&& post.card_resources == pre.card_resources
    &&& post.cards_in_hand == pre.cards_in_hand
    &&& post.terraform_rating == pre.terraform_rating
    &&& post.steel_value == pre.steel_value
    &&& post.titanium_value == pre.titanium_value
    &&& post.effects == pre.effects
}

/// After a generation advance the tap-state is always empty, and the energy
/// balance is zero whenever energy production is zero, regardless of the
/// balances held before.
pub proof fn lemma_generation_advance_resets_tap_state(pre: PlayerState, post: PlayerState)
    requires
        generation_advanced(pre, post),
    ensures
        post.tapped_active_cards@.len() == 0,
        pre.production.energy == 0 ==> post.resources.energy == 0,
{
}

/// For a well-formed player, every resource balance is non-negative, every
/// production level except megacredits is non-negative, and megacredit
/// production is floored at the negated terraform rating.
pub proof fn lemma_non_negativity(p: PlayerState)
    requires
        p.wf(),
    ensures
        p.resources.megacredits >= 0,
        p.resources.steel >= 0,
        p.resources.titanium >= 0,
        p.resources.plants >= 0,
        p.resources.energy >= 0,
        p.resources.heat >= 0,
        p.production.steel >= 0,
        p.production.titanium >= 0,
        p.production.plants >= 0,
        p.production.energy >= 0,
        p.production.heat >= 0,
        p.production.megacredits >= -(p.terraform_rating as int),
{
}

/// Appending an effect adds its metal-value contribution.
pub proof fn lemma_metals_increase_push(effects: Seq<CardEffectView>, e: CardEffectView)
    ensures
        metals_increase(effects.push(e)) == metals_increase(effects) + (match e {
            CardEffectView::IncreasedMetalsValue(n) => n as int,
            _ => 0int,
        }),
    decreases effects.len(),
{
    if effects.len() == 0 {
        assert(effects.push(e).skip(1) =~= Seq::<CardEffectView>::empty());
        assert(effects.push(e)[0] == e);
        assert(metals_increase(effects.push(e).skip(1)) == 0);
        assert(metals_increase(effects) == 0);
    } else {
        lemma_metals_increase_push(effects.skip(1), e);
        assert(effects.push(e).skip(1) =~= effects.skip(1).push(e));
        assert(effects.push(e)[0] == effects[0]);
        assert(metals_increase(effects.push(e)) == (match effects[0] {
            CardEffectView::IncreasedMetalsValue(n) => n as int,
            _ => 0int,
        }) + metals_increase(effects.skip(1).push(e)));
        assert(metals_increase(effects) == (match effects[0] {
            CardEffectView::IncreasedMetalsValue(n) => n as int,
            _ => 0int,
        }) + metals_increase(effects.skip(1)));
    }
}

/// A prefix never contributes more metal value than the whole sequence.
pub proof fn lemma_metals_increase_prefix(effects: Seq<CardEffectView>, i: int)
    requires
        0 <= i <= effects.len(),
    ensures
        metals_increase(effects.subrange(0, i)) <= metals_increase(effects),
    decreases effects.len() - i,
{
    if i == effects.len() {
        assert(effects.subrange(0, i) =~= effects);
    } else {
        lemma_metals_increase_prefix(effects, i + 1);
        lemma_metals_increase_push(effects.subrange(0, i), effects[i]);
        assert(effects.subrange(0, i + 1) =~= effects.subrange(0, i).push(effects[i]));
    }
}

/// Builds a [`PlayerState`] from explicit starting values, filling anything
/// left unset with the defaults.
pub struct PlayerStateBuilder {
    pub player_id: PlayerId,
    pub resources: Option<ResourceBank>,
    pub production: Option<ProductionLevels>,
    pub played_cards: Option<Vec<Card>>,
    pub card_resources: Vec<CardResourceEntry>,
    pub tapped_active_cards: Option<Vec<usize>>,
    pub cards_in_hand: Option<Vec<Card>>,
    pub terraform_rating: usize,
}

impl PlayerStateBuilder {
    /// Starts a builder for the player with the default terraform rating and
    /// nothing else set.
    pub fn new(player_id: usize) -> (r: PlayerStateBuilder)
        ensures
            r.player_id == PlayerId(player_id),
            r.resources is None,
            r.production is None,
            r.played_cards is None,
            r.card_resources@.len() == 0,
            r.tapped_active_cards is None,
            r.cards_in_hand is None,
            r.terraform_rating == DEFAULT_STARTING_TERRAFORM_RATING,
    {
        PlayerStateBuilder {
            player_id: PlayerId(player_id),
            resources: None,
            production: None,
            played_cards: None,
            card_resources: Vec::new(),
            tapped_active_cards: None,
            cards_in_hand: None,
            terraform_rating: DEFAULT_STARTING_TERRAFORM_RATING,
        }
    }

    /// Sets the played cards.
    pub fn with_played_cards(self, played_cards: Vec<Card>) -> (r: PlayerStateBuilder)
        ensures
            r == (PlayerStateBuilder { played_cards: Some(played_cards), ..self }),
    {
        PlayerStateBuilder { played_cards: Some(played_cards), ..self }
    }

    /// Sets the starting balances; they must not have been set before.
    pub fn with_resources(
        self,
        megacredits: usize,
        steel: usize,
        titanium: usize,
        plants: usize,
        energy: usize,
        heat: usize,
    ) -> (r: PlayerStateBuilder)
        requires
            self.resources is None,
        ensures
            r == (PlayerStateBuilder {
                resources: Some(ResourceBank { megacredits, steel, titanium, plants, energy, heat }),
                ..self
            }),
    {
        PlayerStateBuilder {
            resources: Some(ResourceBank { megacredits, steel, titanium, plants, energy, heat }),
            ..self
        }
    }

    /// Sets the starting production; it must not have been set before, only
    /// megacredit production may be negative, and only down to the negated
    /// terraform rating.
    pub fn with_production(
        self,
        megacredits: isize,
        steel: isize,
        titanium: isize,
        plants: isize,
        energy: isize,
        heat: isize,
    ) -> (r: PlayerStateBuilder)
        requires
            self.production is None,
            steel >= 0,
            titanium >= 0,
            plants >= 0,
            energy >= 0,
            heat >= 0,
            megacredits >= -(self.terraform_rating as int),
        ensures
            r == (PlayerStateBuilder {
                production: Some(ProductionLevels { megacredits, steel, titanium, plants, energy, heat }),
                ..self
            }),
    {
        PlayerStateBuilder {
            production: Some(ProductionLevels { megacredits, steel, titanium, plants, energy, heat }),
            ..self
        }
    }

    /// Finishes the player: unset parts default to zero balances, zero
    /// production and empty lists; the passive-effect list and the metal
    /// conversion values are derived from the played cards.
    pub fn build(self) -> (r: PlayerState)
        requires
            ({
                let played_len = match self.played_cards {
                    Some(cards) => cards@.len(),
                    None => 0,
                };
                &&& forall|i: int| 0 <= i < self.card_resources@.len()
                    ==> (#[trigger] self.card_resources@[i]).card_index < played_len
                &&& forall|i: int, j: int| 0 <= i < j < self.card_resources@.len()
                    ==> ((#[trigger] self.card_resources@[i]).card_index, self.card_resources@[i].kind)
                        != ((#[trigger] self.card_resources@[j]).card_index, self.card_resources@[j].kind)
                &&& match self.tapped_active_cards {
                    Some(tapped) => (forall|i: int| 0 <= i < tapped@.len()
                        ==> (#[trigger] tapped@[i]) < played_len) && (forall|i: int, j: int|
                        0 <= i < j < tapped@.len() ==> (#[trigger] tapped@[i]) != (#[trigger] tapped@[j])),
                    None => true,
                }
                &&& match self.production {
                    Some(p) => p.steel >= 0 && p.titanium >= 0 && p.plants >= 0 && p.energy >= 0
                        && p.heat >= 0 && p.megacredits >= -(self.terraform_rating as int),
                    None => true,
                }
                &&& match self.played_cards {
                    Some(cards) => DEFAULT_TITANIUM_VALUE + metals_increase(
                        concat_effects(cards.deep_view()),
                    ) <= usize::MAX,
                    None => true,
                }
            }),
        ensures
            r.player_id == self.player_id,
            r.resources == match self.resources {
                Some(res) => res,
                None => ResourceBank { megacredits: 0, steel: 0, titanium: 0, plants: 0, energy: 0, heat: 0 },
            },
            r.production == match self.production {
                Some(p) => p,
                None => ProductionLevels { megacredits: 0, steel: 0, titanium: 0, plants: 0, energy: 0, heat: 0 },
            },
            match self.played_cards {
                Some(cards) => r.played_cards == cards,
                None => r.played_cards@.len() == 0,
            },
            r.card_resources == self.card_resources,
            match self.tapped_active_cards {
                Some(tapped) => r.tapped_active_cards == tapped,
                None => r.tapped_active_cards@.len() == 0,
            },
            match self.cards_in_hand {
                Some(hand) => r.cards_in_hand == hand,
                None => r.cards_in_hand@.len() == 0,
            },
            r.terraform_rating == self.terraform_rating,
            r.effects.deep_view() == concat_effects(r.played_cards.deep_view()),
            r.steel_value == DEFAULT_STEEL_VALUE + metals_increase(r.effects.deep_view()),
            r.titanium_value == DEFAULT_TITANIUM_VALUE + metals_increase(r.effects.deep_view()),
            r.wf(),
    {
        let played_cards = match self.played_cards {
            Some(cards) => cards,
            None => Vec::new(),
        };

        let ghost cs = played_cards.deep_view();
        let mut effects: Vec<CardEffect> = Vec::new();
        let n = played_cards.len();
        proof {
            assert(cs.subrange(0, 0) =~= Seq::<CardView>::empty());
            assert(effects.deep_view() =~= concat_effects(cs.subrange(0, 0)));
        }
        for i in 0..n
            invariant
                n == played_cards@.len(),
                cs == played_cards.deep_view(),
                effects.deep_view() == concat_effects(cs.subrange(0, i as int)),
        {
            let mut card_effects = dup_effects(&played_cards[i].effects);
            let ghost before = effects.deep_view();
            let ghost added = card_effects.deep_view();
            effects.append(&mut card_effects);
            proof {
                lemma_concat_effects_push(cs.subrange(0, i as int), cs[i as int]);
                assert(cs.subrange(0, i as int + 1) =~= cs.subrange(0, i as int).push(cs[i as int]));
                assert(added == cs[i as int].effects);
                assert forall|k: int| 0 <= k < effects.deep_view().len() implies
                    effects.deep_view()[k] == (before + added)[k] by {
                    if k < before.len() {
                        assert(effects@[k] == effects@.subrange(0, before.len() as int)[k]);
                    }
                }
                assert(effects.deep_view() =~= before + added);
            }
        }
        proof {
            assert(cs.subrange(0, n as int) =~= cs);
        }

        let ghost es = effects.deep_view();
        let mut increase: usize = 0;
        let m = effects.len();
        proof {
            assert(es.subrange(0, 0) =~= Seq::<CardEffectView>::empty());
            lemma_metals_increase_nonneg(es);
        }
        for j in 0..m
            invariant
                m == effects@.len(),
                es == effects.deep_view(),
                increase == metals_increase(es.subrange(0, j as int)),
                DEFAULT_TITANIUM_VALUE + metals_increase(es) <= usize::MAX,
        {
            proof {
                lemma_metals_increase_push(es.subrange(0, j as int), es[j as int]);
                assert(es.subrange(0, j as int + 1) =~= es.subrange(0, j as int).push(es[j as int]));
                lemma_metals_increase_prefix(es, j as int + 1);
                lemma_metals_increase_nonneg(es.subrange(0, j as int));
            }
            match &effects[j] {
                CardEffect::IncreasedMetalsValue(inc) => {
                    increase += *inc;
                }
                _ => {}
            }
        }
        proof {
            assert(es.subrange(0, m as int) =~= es);
        }

        let steel_value = DEFAULT_STEEL_VALUE + increase;
        let titanium_value = DEFAULT_TITANIUM_VALUE + increase;

        PlayerState {
            player_id: self.player_id,
            resources: match self.resources {
                Some(res) => res,
                None => ResourceBank { megacredits: 0, steel: 0, titanium: 0, plants: 0, energy: 0, heat: 0 },
            },
            production: match self.production {
                Some(p) => p,
                None => ProductionLevels { megacredits: 0, steel: 0, titanium: 0, plants: 0, energy: 0, heat: 0 },
            },
            played_cards,
            card_resources: self.card_resources,
            tapped_active_cards: match self.tapped_active_cards {
                Some(tapped) => tapped,
                None => Vec::new(),
            },
            cards_in_hand: match self.cards_in_hand {
                Some(hand) => hand,
                None => Vec::new(),
            },
            terraform_rating: self.terraform_rating,
            steel_value,
            titanium_value,
            effects,
        }
    }
}

/// Megacredits spent on a cost: the whole cost when the balance covers it,
/// else the whole balance.
pub open spec fn spec_mc_used(x: int, mc: int) -> int {
    if x <= mc {
        x
    } else {
        mc
    }
}

/// The ceiling of a / b, for a non-negative numerator and positive
/// denominator.
pub open spec fn spec_ceil_div(a: int, b: int) -> int {
    (a + b - 1) / b
}

/// Whether a cost class can be settled from the player's balances: plain
/// megacredits, or megacredits plus a metal at the player's conversion value.
/// Costs in plain resources other than megacredits are not payable here.
pub open spec fn spec_affordable(p: PlayerStateView, cost: PaymentCost) -> bool {
    match cost {
        PaymentCost::Megacredits(x) => x <= p.resources.megacredits,
        PaymentCost::Building(x) => x <= p.resources.megacredits + p.resources.steel
            * p.steel_value,
        PaymentCost::Space(x) => x <= p.resources.megacredits + p.resources.titanium
            * p.titanium_value,
        PaymentCost::SpaceOrBuilding(x) => x <= p.resources.megacredits + p.resources.steel
            * p.steel_value + p.resources.titanium * p.titanium_value,
        _ => false,
    }
}

/// The balances after paying a cost with megacredits first and then whole
/// units of one metal.
pub open spec fn spec_pay_with_metal(
    bank: ResourceBank,
    x: int,
    v: int,
    metal: Resource,
) -> ResourceBank {
    let mc_used = spec_mc_used(x, bank.megacredits as int);
    let units = spec_ceil_div(x - mc_used, v);
    bank.spec_with(Resource::Megacredits, (bank.megacredits - mc_used) as usize).spec_with(
        metal,
        (bank.spec_get(metal) - units) as usize,
    )
}

/// The balances after paying a cost: megacredits first, then steel for a
/// building cost, titanium for a space cost, and steel before titanium for a
/// cost payable with either.
pub open spec fn spec_pay(p: PlayerStateView, cost: PaymentCost) -> ResourceBank {
    let bank = p.resources;
    match cost {
        PaymentCost::Megacredits(x) => bank.spec_with(
            Resource::Megacredits,
            (bank.megacredits - x) as usize,
        ),
        PaymentCost::Building(x) => spec_pay_with_metal(bank, x as int, p.steel_value as int, Resource::Steel),
        PaymentCost::Space(x) => spec_pay_with_metal(bank, x as int, p.titanium_value as int, Resource::Titanium),
        PaymentCost::SpaceOrBuilding(x) => if x <= bank.megacredits + bank.steel * p.steel_value {
            spec_pay_with_metal(bank, x as int, p.steel_value as int, Resource::Steel)
        } else {
            let rem = x - bank.megacredits - bank.steel * p.steel_value;
            let units = spec_ceil_div(rem, p.titanium_value as int);
            bank.spec_with(Resource::Megacredits, 0).spec_with(Resource::Steel, 0).spec_with(
                Resource::Titanium,
                (bank.titanium - units) as usize,
            )
        },
        _ => bank,
    }
}

/// The production levels after applying a card's deltas in order.
pub open spec fn spec_apply_production(
    prod: ProductionLevels,
    entries: Seq<(Resource, isize)>,
) -> ProductionLevels
    decreases entries.len(),
{
    if entries.len() == 0 {
        prod
    } else {
        spec_apply_production(
            prod.spec_with(entries[0].0, (prod.spec_get(entries[0].0) + entries[0].1) as isize),
            entries.skip(1),
        )
    }
}

/// Whether applying the deltas keeps every production level within its floor
/// (zero, or the negated terraform rating for megacredits) and within the
/// machine range, at every step.
pub open spec fn spec_production_deltas_ok(
    prod: ProductionLevels,
    tr: usize,
    entries: Seq<(Resource, isize)>,
) -> bool
    decreases entries.len(),
{
    if entries.len() == 0 {
        true
    } else {
        let nv = prod.spec_get(entries[0].0) + entries[0].1;
        &&& nv <= isize::MAX
        &&& nv >= isize::MIN
        &&& nv >= (if entries[0].0 == Resource::Megacredits {
            -(tr as int)
        } else {
            0
        })
        &&& spec_production_deltas_ok(
            prod.spec_with(entries[0].0, nv as isize),
            tr,
            entries.skip(1),
        )
    }
}

/// Whether a player-local requirement holds: a tag minimum or a production
/// minimum. Requirements on the shared board always hold here; they are
/// checked against a board by `can_play_card`.
pub open spec fn spec_local_requirement_met(p: PlayerStateView, req: CardRequirement) -> bool {
    match req {
        CardRequirement::MinTags(tag, cnt) => count_tag(non_event_tags(p.played_cards), tag)
            >= cnt,
        CardRequirement::MinProduction(res, amt) => p.production.spec_get(res) >= amt,
        _ => true,
    }
}

/// Whether a requirement holds against the shared board and the player.
pub open spec fn spec_requirement_met(
    p: PlayerStateView,
    board: MarsBoard,
    req: CardRequirement,
) -> bool {
    match req {
        CardRequirement::MaxOxygen(m) => board.oxygen <= m,
        CardRequirement::MinOxygen(m) => board.oxygen >= m,
        CardRequirement::MaxTemperature(t) => board.temperature <= t,
        CardRequirement::MinTemperature(t) => board.temperature >= t,
        CardRequirement::MaxOceans(m) => board.oceans@.len() <= m,
        CardRequirement::MinOceans(m) => board.oceans@.len() >= m,
        CardRequirement::MinOwnedGreeneries(m) => count_greeneries_owned(
            board.greeneries@,
            p.player_id,
        ) >= m,
        CardRequirement::MinTags(tag, cnt) => count_tag(non_event_tags(p.played_cards), tag)
            >= cnt,
        CardRequirement::MinProduction(res, amt) => p.production.spec_get(res) >= amt,
    }
}

/// How many greeneries are owned by the given player.
pub open spec fn count_greeneries_owned(s: Seq<(Coordinates, PlayerId)>, pid: PlayerId) -> int
    decreases s.len(),
{
    if s.len() == 0 {
        0
    } else {
        (if s[0].1 == pid { 1int } else { 0int }) + count_greeneries_owned(s.skip(1), pid)
    }
}

/// Appending a greenery adds its contribution to the owned count.
pub proof fn lemma_count_greeneries_owned_push(
    s: Seq<(Coordinates, PlayerId)>,
    x: (Coordinates, PlayerId),
    pid: PlayerId,
)
    ensures
        count_greeneries_owned(s.push(x), pid) == count_greeneries_owned(s, pid) + (if x.1 == pid { 1int } else { 0int }),
    decreases s.len(),
{
    if s.len() == 0 {
        assert(s.push(x).skip(1) =~= Seq::<(Coordinates, PlayerId)>::empty());
        assert(s.push(x)[0] == x);
        assert(count_greeneries_owned(s.push(x).skip(1), pid) == 0);
        assert(count_greeneries_owned(s, pid) == 0);
    } else {
        lemma_count_greeneries_owned_push(s.skip(1), x, pid);
        assert(s.push(x).skip(1) =~= s.skip(1).push(x));
        assert(s.push(x)[0] == s[0]);
        assert(count_greeneries_owned(s.push(x), pid) == (if s[0].1 == pid { 1int } else { 0int })
            + count_greeneries_owned(s.skip(1).push(x), pid));
        assert(count_greeneries_owned(s, pid) == (if s[0].1 == pid { 1int } else { 0int })
            + count_greeneries_owned(s.skip(1), pid));
    }
}

/// The owned-greenery count stays between zero and the sequence length.
pub proof fn lemma_count_greeneries_owned_bounds(s: Seq<(Coordinates, PlayerId)>, pid: PlayerId)
    ensures
        0 <= count_greeneries_owned(s, pid) <= s.len(),
    decreases s.len(),
{
    if s.len() > 0 {
        lemma_count_greeneries_owned_bounds(s.skip(1), pid);
    }
}

/// For a non-negative amount and positive unit value, needing at most `s`
/// units is the same as `s` units covering the amount.
pub proof fn lemma_ceil_div_le(a: int, v: int, s: int)
    requires
        a >= 0,
        v >= 1,
        s >= 0,
    ensures
        (spec_ceil_div(a, v) <= s) <==> (a <= s * v),
        spec_ceil_div(a, v) >= 0,
        spec_ceil_div(a, v) <= a,
{
    assert(((a + v - 1) / v <= s) <==> (a <= s * v)) by (nonlinear_arith)
        requires
            a >= 0,
            v >= 1,
            s >= 0,
    ;
    assert((a + v - 1) / v >= 0) by (nonlinear_arith)
        requires
            a >= 0,
            v >= 1,
    ;
    assert((a + v - 1) / v <= a) by (nonlinear_arith)
        requires
            a >= 0,
            v >= 1,
    ;
}

/// True iff the cost is covered by megacredits plus one metal balance at the
/// given unit value.
fn covers_with_metal(x: usize, mc: usize, bal: usize, v: usize) -> (r: bool)
    requires
        v >= 1,
    ensures
        r == (x <= mc + bal * v),
{
    if x <= mc {
        proof {
            assert(bal * v >= 0) by (nonlinear_arith)
                requires
                    bal >= 0,
                    v >= 0,
            ;
        }
        true
    } else {
        let rem = x - mc;
        let units = (((rem as u128) + (v as u128)) - 1) / (v as u128);
        proof {
            lemma_ceil_div_le(rem as int, v as int, bal as int);
            assert(units == spec_ceil_div(rem as int, v as int));
        }
        units <= bal as u128
    }
}

/// Whether every requirement of a card may be queried: the `Event` tag is
/// never a legal tag-requirement subject.
pub open spec fn spec_requirements_queryable(c: CardView) -> bool {
    forall|k: int| 0 <= k < c.requirements.len()
        ==> ((#[trigger] c.requirements[k]) matches CardRequirement::MinTags(tag, _) ==> tag
            != CardTag::Event)
}

/// Whether a card's cost is in one of the four classes a card can be paid in.
pub open spec fn spec_payable_cost_class(cost: PaymentCost) -> bool {
    ||| cost matches PaymentCost::Megacredits(_)
    ||| cost matches PaymentCost::Building(_)
    ||| cost matches PaymentCost::Space(_)
    ||| cost matches PaymentCost::SpaceOrBuilding(_)
}

impl PlayerState {
    /// How many greeneries on the board the player owns.
    fn count_owned_greeneries(&self, board: &MarsBoard) -> (r: usize)
        ensures
            r == count_greeneries_owned(board.greeneries@, self.player_id),
    {
        let gs = &board.greeneries;
        let mut count: usize = 0;
        let n = gs.len();
        proof {
            assert(gs@.subrange(0, 0) =~= Seq::<(Coordinates, PlayerId)>::empty());
        }
        for i in 0..n
            invariant
                n == gs@.len(),
                count == count_greeneries_owned(gs@.subrange(0, i as int), self.player_id),
                count <= i,
        {
            proof {
                lemma_count_greeneries_owned_push(gs@.subrange(0, i as int), gs@[i as int], self.player_id);
                assert(gs@.subrange(0, i as int + 1) =~= gs@.subrange(0, i as int).push(gs@[i as int]));
            }
            if gs[i].1 == self.player_id {
                count += 1;
            }
        }
        proof {
            assert(gs@.subrange(0, n as int) =~= gs@);
        }
        count
    }

    /// Evaluates every requirement of the card at the given hand index
    /// against the board and the player, then its affordability; returns the
    /// card's cost exactly when everything passes.
    pub fn can_play_card(&self, board: &MarsBoard, index_in_hand: usize) -> (r: Option<
        PaymentCost,
    >)
        requires
            index_in_hand < self.cards_in_hand@.len(),
            spec_requirements_queryable(self.deep_view().cards_in_hand[index_in_hand as int]),
            spec_payable_cost_class(self.cards_in_hand@[index_in_hand as int].cost),
            self.steel_value >= 1,
            self.titanium_value >= 1,
        ensures
            (r is Some) <==> ((forall|k: int|
                0 <= k < self.cards_in_hand@[index_in_hand as int].requirements@.len()
                    ==> spec_requirement_met(
                    self.deep_view(),
                    *board,
                    #[trigger] self.cards_in_hand@[index_in_hand as int].requirements@[k],
                )) && spec_affordable(
                self.deep_view(),
                self.cards_in_hand@[index_in_hand as int].cost,
            )),
            r is Some ==> r == Some(self.cards_in_hand@[index_in_hand as int].cost),
    {
        let m = self.cards_in_hand[index_in_hand].requirements.len();
        for k in 0..m
            invariant
                index_in_hand < self.cards_in_hand@.len(),
                m == self.cards_in_hand@[index_in_hand as int].requirements@.len(),
                spec_requirements_queryable(self.deep_view().cards_in_hand[index_in_hand as int]),
                forall|j: int| 0 <= j < k ==> spec_requirement_met(
                    self.deep_view(),
                    *board,
                    #[trigger] self.cards_in_hand@[index_in_hand as int].requirements@[j],
                ),
        {
            proof {
                assert(self.deep_view().cards_in_hand[index_in_hand as int].requirements[k as int]
                    == self.cards_in_hand@[index_in_hand as int].requirements@[k as int]);
            }
            let met = match &self.cards_in_hand[index_in_hand].requirements[k] {
                CardRequirement::MaxOxygen(max_oxygen) => board.oxygen <= *max_oxygen,
                CardRequirement::MinOxygen(min_oxygen) => board.oxygen >= *min_oxygen,
                CardRequirement::MaxTemperature(max_temp) => board.temperature <= *max_temp,
                CardRequirement::MinTemperature(min_temp) => board.temperature >= *min_temp,
                CardRequirement::MaxOceans(max_oceans) => board.oceans.len() <= *max_oceans,
                CardRequirement::MinOceans(min_oceans) => board.oceans.len() >= *min_oceans,
                CardRequirement::MinOwnedGreeneries(min_greeneries) => {
                    self.count_owned_greeneries(board) >= *min_greeneries
                }
                CardRequirement::MinTags(tag, count) => self.active_tag_count(*tag) >= *count,
                CardRequirement::MinProduction(resource, amount) => {
                    let p = self.production.get(*resource);
                    p >= 0 && p as usize >= *amount
                }
            };
            if !met {
                return None;
            }
        }

        let card_cost = self.cards_in_hand[index_in_hand].cost;
        if self.affordable(card_cost) {
            Some(card_cost)
        } else {
            None
        }
    }

    /// True iff the cost is affordable from the player's balances.
    pub fn affordable(&self, cost: PaymentCost) -> (r: bool)
        requires
            self.steel_value >= 1,
            self.titanium_value >= 1,
        ensures
            r == spec_affordable(self.deep_view(), cost),
    {
        let mc = self.resources.megacredits;
        match cost {
            PaymentCost::Megacredits(x) => x <= mc,
            PaymentCost::Building(x) => covers_with_metal(x, mc, self.resources.steel, self.steel_value),
            PaymentCost::Space(x) => covers_with_metal(x, mc, self.resources.titanium, self.titanium_value),
            PaymentCost::SpaceOrBuilding(x) => {
                if covers_with_metal(x, mc, self.resources.steel, self.steel_value) {
                    proof {
                        assert(self.resources.titanium * self.titanium_value >= 0) by (nonlinear_arith)
                            requires
                                self.resources.titanium >= 0,
                                self.titanium_value >= 0,
                        ;
                    }
                    true
                } else {
                    // The whole steel balance falls short, so its credit is
                    // below the remainder and fits in a machine word.
                    let rem = x - mc;
                    proof {
                        lemma_ceil_div_le(rem as int, self.steel_value as int, self.resources.steel as int);
                    }
                    let steel_credit = self.resources.steel * self.steel_value;
                    let rem2 = rem - steel_credit;
                    covers_with_metal(rem2, 0, self.resources.titanium, self.titanium_value)
                }
            }
            _ => false,
        }
    }
}

/// One production delta applied to the levels.
pub open spec fn spec_production_step(prod: ProductionLevels, e: (Resource, isize)) -> ProductionLevels {
    prod.spec_with(e.0, (prod.spec_get(e.0) + e.1) as isize)
}

/// Applying deltas ending in one more step is that step applied to the fold
/// of the others.
pub proof fn lemma_apply_production_push(
    prod: ProductionLevels,
    s: Seq<(Resource, isize)>,
    x: (Resource, isize),
)
    ensures
        spec_apply_production(prod, s.push(x)) == spec_production_step(
            spec_apply_production(prod, s),
            x,
        ),
    decreases s.len(),
{
    if s.len() == 0 {
        assert(s.push(x).skip(1) =~= Seq::<(Resource, isize)>::empty());
        assert(s.push(x)[0] == x);
        assert(spec_apply_production(prod, s) == prod);
        assert(spec_apply_production(prod, s.push(x)) == spec_apply_production(
            spec_production_step(prod, x),
            s.push(x).skip(1),
        ));
    } else {
        lemma_apply_production_push(spec_production_step(prod, s[0]), s.skip(1), x);
        assert(s.push(x).skip(1) =~= s.skip(1).push(x));
        assert(s.push(x)[0] == s[0]);
        assert(spec_apply_production(prod, s.push(x)) == spec_apply_production(
            spec_production_step(prod, s[0]),
            s.skip(1).push(x),
        ));
        assert(spec_apply_production(prod, s) == spec_apply_production(
            spec_production_step(prod, s[0]),
            s.skip(1),
        ));
    }
}

/// The in-range condition of one delta step.
pub open spec fn spec_production_step_ok(prod: ProductionLevels, tr: usize, e: (Resource, isize)) -> bool {
    let nv = prod.spec_get(e.0) + e.1;
    &&& nv <= isize::MAX
    &&& nv >= isize::MIN
    &&& nv >= (if e.0 == Resource::Megacredits {
        -(tr as int)
    } else {
        0
    })
}

/// Deltas ending in one more step are in range iff the prefix is and the
/// last step is in range after the prefix.
pub proof fn lemma_production_deltas_ok_push(
    prod: ProductionLevels,
    tr: usize,
    s: Seq<(Resource, isize)>,
    x: (Resource, isize),
)
    ensures
        spec_production_deltas_ok(prod, tr, s.push(x)) == (spec_production_deltas_ok(prod, tr, s)
            && spec_production_step_ok(spec_apply_production(prod, s), tr, x)),
    decreases s.len(),
{
    if s.len() == 0 {
        assert(s.push(x).skip(1) =~= Seq::<(Resource, isize)>::empty());
        assert(s.push(x)[0] == x);
        assert(spec_apply_production(prod, s) == prod);
        assert(spec_production_deltas_ok(prod, tr, s));
        assert(spec_production_deltas_ok(
            spec_production_step(prod, x),
            tr,
            Seq::<(Resource, isize)>::empty(),
        ));
    } else {
        lemma_production_deltas_ok_push(spec_production_step(prod, s[0]), tr, s.skip(1), x);
        assert(s.push(x).skip(1) =~= s.skip(1).push(x));
        assert(s.push(x)[0] == s[0]);
        assert(spec_apply_production(prod, s) == spec_apply_production(
            spec_production_step(prod, s[0]),
            s.skip(1),
        ));
    }
}

/// In-range deltas stay in range when truncated.
pub proof fn lemma_production_deltas_ok_prefix(
    prod: ProductionLevels,
    tr: usize,
    s: Seq<(Resource, isize)>,
    k: int,
)
    requires
        0 <= k <= s.len(),
        spec_production_deltas_ok(prod, tr, s),
    ensures
        spec_production_deltas_ok(prod, tr, s.subrange(0, k)),
    decreases s.len() - k,
{
    if k == s.len() {
        assert(s.subrange(0, k) =~= s);
    } else {
        lemma_production_deltas_ok_prefix(prod, tr, s, k + 1);
        lemma_production_deltas_ok_push(prod, tr, s.subrange(0, k), s[k]);
        assert(s.subrange(0, k + 1) =~= s.subrange(0, k).push(s[k]));
    }
}

/// The production floors: every level except megacredits is non-negative,
/// and megacredits stay above the negated terraform rating.
pub open spec fn spec_production_floors(prod: ProductionLevels, tr: usize) -> bool {
    &&& prod.steel >= 0
    &&& prod.titanium >= 0
    &&& prod.plants >= 0
    &&& prod.energy >= 0
    &&& prod.heat >= 0
    &&& prod.megacredits >= -(tr as int)
}

/// Applying in-range deltas preserves the production floors.
pub proof fn lemma_apply_production_floors(
    prod: ProductionLevels,
    tr: usize,
    s: Seq<(Resource, isize)>,
)
    requires
        spec_production_floors(prod, tr),
        spec_production_deltas_ok(prod, tr, s),
    ensures
        spec_production_floors(spec_apply_production(prod, s), tr),
    decreases s.len(),
{
    if s.len() > 0 {
        lemma_apply_production_floors(spec_production_step(prod, s[0]), tr, s.skip(1));
    }
}

impl PlayerState {
    /// Pays a cost from the balances: megacredits first, then whole units of
    /// the discounted metal.
    fn pay_cost(&mut self, cost: PaymentCost)
        requires
            spec_affordable(old(self).deep_view(), cost),
            spec_payable_cost_class(cost),
            old(self).steel_value >= 1,
            old(self).titanium_value >= 1,
        ensures
            *final(self) == (PlayerState { resources: spec_pay(old(self).deep_view(), cost), ..*old(self) }),
    {
        let mc = self.resources.megacredits;
        match cost {
            PaymentCost::Megacredits(x) => {
                self.resources.megacredits = mc - x;
            }
            PaymentCost::Building(x) => {
                self.pay_with_metal(x, Resource::Steel);
            }
            PaymentCost::Space(x) => {
                self.pay_with_metal(x, Resource::Titanium);
            }
            PaymentCost::SpaceOrBuilding(x) => {
                if covers_with_metal(x, mc, self.resources.steel, self.steel_value) {
                    self.pay_with_metal(x, Resource::Steel);
                } else {
                    let rem = x - mc;
                    proof {
                        lemma_ceil_div_le(rem as int, self.steel_value as int, self.resources.steel as int);
                        lemma_ceil_div_le(
                            (rem - self.resources.steel * self.steel_value) as int,
                            self.titanium_value as int,
                            self.resources.titanium as int,
                        );
                    }
                    let steel_credit = self.resources.steel * self.steel_value;
                    let rem2 = rem - steel_credit;
                    let units = (((rem2 as u128) + (self.titanium_value as u128)) - 1)
                        / (self.titanium_value as u128);
                    proof {
                        assert(units == spec_ceil_div(rem2 as int, self.titanium_value as int));
                    }
                    self.resources.megacredits = 0;
                    self.resources.steel = 0;
                    self.resources.titanium = self.resources.titanium - (units as usize);
                }
            }
            _ => {
                proof {
                    assert(false);
                }
            }
        }
    }

    /// Pays a cost with megacredits first and then whole units of one metal.
    fn pay_with_metal(&mut self, x: usize, metal: Resource)
        requires
            metal == Resource::Steel || metal == Resource::Titanium,
            old(self).steel_value >= 1,
            old(self).titanium_value >= 1,
            metal == Resource::Steel ==> x <= old(self).resources.megacredits
                + old(self).resources.steel * old(self).steel_value,
            metal == Resource::Titanium ==> x <= old(self).resources.megacredits
                + old(self).resources.titanium * old(self).titanium_value,
        ensures
            *final(self) == (PlayerState {
                resources: spec_pay_with_metal(
                    old(self).resources,
                    x as int,
                    (if metal == Resource::Steel {
                        old(self).steel_value
                    } else {
                        old(self).titanium_value
                    }) as int,
                    metal,
                ),
                ..*old(self)
            }),
    {
        let mc = self.resources.megacredits;
        let v = if matches!(metal, Resource::Steel) {
            self.steel_value
        } else {
            self.titanium_value
        };
        let bal = self.resources.get(metal);
        if x <= mc {
            proof {
                lemma_ceil_div_le(0, v as int, bal as int);
                assert(spec_ceil_div(0, v as int) == 0);
            }
            self.resources.megacredits = mc - x;
            let b = self.resources.get(metal);
            self.resources.set(metal, b);
            proof {
                assert(final(self).resources =~= spec_pay_with_metal(
                    old(self).resources,
                    x as int,
                    v as int,
                    metal,
                ));
            }
        } else {
            let rem = x - mc;
            let units128 = (((rem as u128) + (v as u128)) - 1) / (v as u128);
            proof {
                lemma_ceil_div_le(rem as int, v as int, bal as int);
                assert(units128 == spec_ceil_div(rem as int, v as int));
            }
            let units = units128 as usize;
            self.resources.megacredits = 0;
            let b = self.resources.get(metal);
            self.resources.set(metal, b - units);
        }
    }

    /// Moves a card into play: the card joins the played list, its passive
    /// effects join the effect list, and any metal-value increases raise the
    /// conversion values.
    pub fn adopt_card(&mut self, card: Card)
        requires
            old(self).steel_value + metals_increase(card.effects.deep_view()) <= usize::MAX,
            old(self).titanium_value + metals_increase(card.effects.deep_view()) <= usize::MAX,
        ensures
            final(self).played_cards@ == old(self).played_cards@.push(card),
            final(self).effects.deep_view() == old(self).effects.deep_view()
                + card.effects.deep_view(),
            final(self).steel_value == old(self).steel_value + metals_increase(
                card.effects.deep_view(),
            ),
            final(self).titanium_value == old(self).titanium_value + metals_increase(
                card.effects.deep_view(),
            ),
            final(self).player_id == old(self).player_id,
            final(self).resources == old(self).resources,
            final(self).production == old(self).production,
            final(self).cards_in_hand == old(self).cards_in_hand,
            final(self).card_resources == old(self).card_resources,
            final(self).tapped_active_cards == old(self).tapped_active_cards,
            final(self).terraform_rating == old(self).terraform_rating,
    {
        let ghost added_effects = card.effects.deep_view();
        let en = card.effects.len();
        let ghost mid = *self;
        let ghost base_effects = self.effects.deep_view();
        for j in 0..en
            invariant
                en == card.effects@.len(),
                added_effects == card.effects.deep_view(),
                base_effects == mid.effects.deep_view(),
                self.effects.deep_view() == base_effects + added_effects.subrange(0, j as int),
                self.player_id == mid.player_id,
                self.resources == mid.resources,
                self.production == mid.production,
                self.played_cards == mid.played_cards,
                self.cards_in_hand == mid.cards_in_hand,
                self.card_resources == mid.card_resources,
                self.tapped_active_cards == mid.tapped_active_cards,
                self.steel_value == mid.steel_value,
                self.titanium_value == mid.titanium_value,
                self.terraform_rating == mid.terraform_rating,
        {
            let e = dup_effect(&card.effects[j]);
            let ghost prev = self.effects.deep_view();
            self.effects.push(e);
            proof {
                assert(self.effects@[self.effects@.len() - 1] == e);
                assert(self.effects.deep_view() =~= prev.push(added_effects[j as int]));
                assert(self.effects.deep_view() =~= base_effects + added_effects.subrange(
                    0,
                    j as int + 1,
                ));
            }
        }
        proof {
            assert(added_effects.subrange(0, en as int) =~= added_effects);
            assert(self.effects.deep_view() =~= base_effects + added_effects);
        }

        let ghost es = card.effects.deep_view();
        let mut increase: usize = 0;
        let em = card.effects.len();
        proof {
            assert(es.subrange(0, 0) =~= Seq::<CardEffectView>::empty());
            lemma_metals_increase_nonneg(es);
        }
        for j in 0..em
            invariant
                em == card.effects@.len(),
                es == card.effects.deep_view(),
                increase == metals_increase(es.subrange(0, j as int)),
                old(self).steel_value + metals_increase(es) <= usize::MAX,
                old(self).titanium_value + metals_increase(es) <= usize::MAX,
        {
            proof {
                lemma_metals_increase_push(es.subrange(0, j as int), es[j as int]);
                assert(es.subrange(0, j as int + 1) =~= es.subrange(0, j as int).push(es[j as int]));
                lemma_metals_increase_prefix(es, j as int + 1);
                lemma_metals_increase_nonneg(es.subrange(0, j as int));
            }
            match &card.effects[j] {
                CardEffect::IncreasedMetalsValue(inc) => {
                    increase += *inc;
                }
                _ => {}
            }
        }
        proof {
            assert(es.subrange(0, em as int) =~= es);
            lemma_metals_increase_nonneg(es);
        }
        self.steel_value = self.steel_value + increase;
        self.titanium_value = self.titanium_value + increase;

        self.played_cards.push(card);
    }

    /// Whether the card at the hand index can be played from player-local
    /// state alone: its tag and production requirements hold, its cost is
    /// affordable, and applying its production deltas keeps every level
    /// within its floor. Requirements on the shared board are the caller's
    /// to check through `can_play_card`.
    pub open spec fn spec_card_playable(p: PlayerStateView, idx: int) -> bool {
        let card = p.cards_in_hand[idx];
        &&& forall|k: int| 0 <= k < card.requirements.len() ==> spec_local_requirement_met(
            p,
            #[trigger] card.requirements[k],
        )
        &&& spec_affordable(p, card.cost)
        &&& spec_production_deltas_ok(p.production, p.terraform_rating, card.own_production)
    }

    /// Plays the card at the hand index: checks its player-local
    /// requirements, affordability, and production floors; on success pays
    /// the cost, applies the card's own production deltas, moves the card
    /// into play, and takes on its passive effects. Fails without mutating
    /// anything otherwise.
    pub fn play_card(&mut self, index_in_hand: usize) -> (r: Option<PaymentCost>)
        requires
            old(self).wf(),
            index_in_hand < old(self).cards_in_hand@.len(),
            spec_requirements_queryable(old(self).deep_view().cards_in_hand[index_in_hand as int]),
            spec_payable_cost_class(old(self).cards_in_hand@[index_in_hand as int].cost),
            old(self).steel_value + metals_increase(
                old(self).cards_in_hand@[index_in_hand as int].effects.deep_view(),
            ) <= usize::MAX,
            old(self).titanium_value + metals_increase(
                old(self).cards_in_hand@[index_in_hand as int].effects.deep_view(),
            ) <= usize::MAX,
        ensures
            (r is Some) <==> PlayerState::spec_card_playable(old(self).deep_view(), index_in_hand as int),
            r is None ==> *final(self) == *old(self),
            r is Some ==> {
                let pv = old(self).deep_view();
                let card = old(self).cards_in_hand@[index_in_hand as int];
                &&& r == Some(card.cost)
                &&& final(self).resources == spec_pay(pv, card.cost)
                &&& final(self).production == spec_apply_production(pv.production, card.own_production@)
                &&& final(self).cards_in_hand@ == old(self).cards_in_hand@.remove(index_in_hand as int)
                &&& final(self).played_cards@ == old(self).played_cards@.push(card)
                &&& final(self).effects.deep_view() == pv.effects + card.effects.deep_view()
                &&& final(self).steel_value == old(self).steel_value + metals_increase(card.effects.deep_view())
                &&& final(self).titanium_value == old(self).titanium_value + metals_increase(card.effects.deep_view())
                &&& final(self).player_id == old(self).player_id
                &&& final(self).terraform_rating == old(self).terraform_rating
                &&& final(self).card_resources == old(self).card_resources
                &&& final(self).tapped_active_cards == old(self).tapped_active_cards
            },
            final(self).wf(),
    {
        let ghost pv = self.deep_view();

        // Player-local requirements.
        let m = self.cards_in_hand[index_in_hand].requirements.len();
        for k in 0..m
            invariant
                index_in_hand < self.cards_in_hand@.len(),
                m == self.cards_in_hand@[index_in_hand as int].requirements@.len(),
                self == old(self),
                old(self).wf(),
                pv == old(self).deep_view(),
                spec_requirements_queryable(pv.cards_in_hand[index_in_hand as int]),
                forall|j: int| 0 <= j < k ==> spec_local_requirement_met(
                    pv,
                    #[trigger] pv.cards_in_hand[index_in_hand as int].requirements[j],
                ),
        {
            proof {
                assert(pv.cards_in_hand[index_in_hand as int].requirements[k as int]
                    == self.cards_in_hand@[index_in_hand as int].requirements@[k as int]);
            }
            let met = match &self.cards_in_hand[index_in_hand].requirements[k] {
                CardRequirement::MinTags(tag, count) => self.active_tag_count(*tag) >= *count,
                CardRequirement::MinProduction(resource, amount) => {
                    let p = self.production.get(*resource);
                    p >= 0 && p as usize >= *amount
                }
                _ => true,
            };
            if !met {
                return None;
            }
        }

        // Affordability.
        let card_cost = self.cards_in_hand[index_in_hand].cost;
        if !self.affordable(card_cost) {
            return None;
        }

        // Production floors, simulated on a copy.
        let ghost entries = self.cards_in_hand@[index_in_hand as int].own_production@;
        let mut prod_copy = self.production;
        let tr = self.terraform_rating;
        let pn = self.cards_in_hand[index_in_hand].own_production.len();
        proof {
            assert(entries.subrange(0, 0) =~= Seq::<(Resource, isize)>::empty());
        }
        for i in 0..pn
            invariant
                index_in_hand < self.cards_in_hand@.len(),
                pn == self.cards_in_hand@[index_in_hand as int].own_production@.len(),
                self == old(self),
                old(self).wf(),
                pv == old(self).deep_view(),
                tr == old(self).terraform_rating,
                entries == self.cards_in_hand@[index_in_hand as int].own_production@,
                prod_copy == spec_apply_production(old(self).production, entries.subrange(0, i as int)),
                spec_production_deltas_ok(old(self).production, tr, entries.subrange(0, i as int)),
        {
            proof {
                lemma_apply_production_push(old(self).production, entries.subrange(0, i as int), entries[i as int]);
                lemma_production_deltas_ok_push(old(self).production, tr, entries.subrange(0, i as int), entries[i as int]);
                assert(entries.subrange(0, i as int + 1) =~= entries.subrange(0, i as int).push(entries[i as int]));
            }
            let (res, delta) = self.cards_in_hand[index_in_hand].own_production[i];
            let nv = (prod_copy.get(res) as i128) + (delta as i128);
            let floor: i128 = if matches!(res, Resource::Megacredits) {
                -(tr as i128)
            } else {
                0
            };
            if nv > (isize::MAX as i128) || nv < (isize::MIN as i128) || nv < floor {
                proof {
                    assert(!spec_production_step_ok(prod_copy, tr, entries[i as int]));
                    assert(!spec_production_deltas_ok(old(self).production, tr, entries.subrange(0, i as int + 1)));
                    if spec_production_deltas_ok(old(self).production, tr, entries) {
                        lemma_production_deltas_ok_prefix(old(self).production, tr, entries, i as int + 1);
                    }
                    assert(pv.cards_in_hand[index_in_hand as int].own_production =~= entries);
                }
                return None;
            }
            prod_copy.set(res, nv as isize);
        }
        proof {
            assert(entries.subrange(0, pn as int) =~= entries);
        }

        // All checks passed: mutate.
        let card = self.cards_in_hand.remove(index_in_hand);
        proof {
            assert(spec_affordable(self.deep_view(), card_cost) == spec_affordable(pv, card_cost));
        }
        self.pay_cost(card_cost);
        self.production = prod_copy;
        self.adopt_card(card);
        proof {
            lemma_apply_production_floors(old(self).production, tr, entries);
            lemma_metals_increase_nonneg(self.played_cards@[self.played_cards@.len() - 1].effects.deep_view());
            assert(pv.cards_in_hand[index_in_hand as int].own_production =~= entries);
            assert(pv.cards_in_hand[index_in_hand as int].requirements
                =~= old(self).cards_in_hand@[index_in_hand as int].requirements@.map_values(
                |q: CardRequirement| q,
            ));
        }
        Some(card_cost)
    }
}

/// The token count of the first card-resource entry for the given played
/// card and kind; zero when no entry exists.
pub open spec fn find_card_resource(s: Seq<CardResourceEntry>, idx: int, kind: CardResource) -> int
    decreases s.len(),
{
    if s.len() == 0 {
        0
    } else if s[0].card_index == idx && s[0].kind == kind {
        s[0].amount as int
    } else {
        find_card_resource(s.skip(1), idx, kind)
    }
}

/// Whether a card's victory-point formula can be evaluated: per-tag formulas
/// never count the `Event` tag and no formula divides by zero.
pub open spec fn spec_points_wf(c: CardView) -> bool {
    match c.points {
        Some(VictoryPointValue::PerTag(_, cnt, tag)) => cnt > 0 && tag != CardTag::Event,
        Some(VictoryPointValue::PerCardResource(_, cnt, _)) => cnt > 0,
        Some(VictoryPointValue::PerNCities(nc)) => nc > 0,
        _ => true,
    }
}

/// The points contributed by the played card at the given index: immediate
/// points, points per city on the board, one point per bucket of cities,
/// points per bucket of in-play tags, points per bucket of tokens on the
/// card, or fixed points when any token is present.
pub open spec fn spec_card_points(p: PlayerStateView, ncities: int, i: int) -> int {
    let c = p.played_cards[i];
    match c.points {
        None => 0,
        Some(VictoryPointValue::Immediate(x)) => x as int,
        Some(VictoryPointValue::PerCity(x)) => x * ncities,
        Some(VictoryPointValue::PerNCities(nc)) => ncities / (nc as int),
        Some(VictoryPointValue::PerTag(vp, cnt, tag)) => (count_tag(
            non_event_tags(p.played_cards),
            tag,
        ) / (cnt as int)) * vp,
        Some(VictoryPointValue::PerCardResource(vp, cnt, cr)) => (find_card_resource(
            p.card_resources,
            i,
            cr,
        ) / (cnt as int)) * vp,
        Some(VictoryPointValue::FixedPointsIfAnyCardResourcePresent(n, cr)) => if
            find_card_resource(p.card_resources, i, cr) > 0 {
            n as int
        } else {
            0
        },
    }
}

/// The points of the first `k` played cards.
pub open spec fn spec_card_points_sum(p: PlayerStateView, ncities: int, k: int) -> int
    decreases k,
{
    if k <= 0 {
        0
    } else {
        spec_card_points_sum(p, ncities, k - 1) + spec_card_points(p, ncities, k - 1)
    }
}

/// The adjacency bonus of the city entry at the given index: a capital city
/// scores one point per adjacent ocean, and every owned city scores one
/// point per adjacent greenery, whoever owns the greenery.
pub open spec fn spec_city_points(board: MarsBoard, pid: PlayerId, i: int) -> int {
    let e = board.cities@[i];
    if e.2 == pid {
        (if e.1 == CityKind::Capital {
            count_ocean_statuses(board.spec_neighbor_statuses(e.0))
        } else {
            0
        }) + count_greenery_statuses(board.spec_neighbor_statuses(e.0))
    } else {
        0
    }
}

/// The adjacency bonuses of the first `k` city entries.
pub open spec fn spec_city_points_sum(board: MarsBoard, pid: PlayerId, k: int) -> int
    decreases k,
{
    if k <= 0 {
        0
    } else {
        spec_city_points_sum(board, pid, k - 1) + spec_city_points(board, pid, k - 1)
    }
}

/// A player's total victory points: the terraform rating, the card
/// formulas, one point per owned greenery, and the city adjacency bonuses.
pub open spec fn spec_total_victory_points(p: PlayerStateView, board: MarsBoard) -> int {
    p.terraform_rating + spec_card_points_sum(p, board.cities@.len() as int, p.played_cards.len() as int)
        + count_greeneries_owned(board.greeneries@, p.player_id)
        + spec_city_points_sum(board, p.player_id, board.cities@.len() as int)
}

/// A location has at most six neighbors.
pub proof fn lemma_neighbors_at_most_six(loc: TileLocation)
    ensures
        loc.spec_neighbors().len() <= 6,
{
}

/// A city entry's adjacency bonus lies between zero and twelve.
pub proof fn lemma_city_points_bounds(board: MarsBoard, pid: PlayerId, i: int)
    requires
        0 <= i < board.cities@.len(),
    ensures
        0 <= spec_city_points(board, pid, i) <= 12,
{
    let e = board.cities@[i];
    let sts = board.spec_neighbor_statuses(e.0);
    lemma_neighbors_at_most_six(e.0);
    assert(sts.len() <= 6);
    crate::board::lemma_status_counts_bounds(sts, pid);
}

impl PlayerState {
    /// The token count on the played card at the given index, for one kind.
    pub fn card_resource_amount(&self, card_index: usize, kind: CardResource) -> (r: usize)
        ensures
            r == find_card_resource(self.card_resources@, card_index as int, kind),
    {
        let n = self.card_resources.len();
        proof {
            assert(self.card_resources@.skip(0) =~= self.card_resources@);
        }
        for i in 0..n
            invariant
                n == self.card_resources@.len(),
                find_card_resource(self.card_resources@, card_index as int, kind)
                    == find_card_resource(self.card_resources@.skip(i as int), card_index as int, kind),
        {
            let entry = self.card_resources[i];
            proof {
                assert(self.card_resources@.skip(i as int)[0] == self.card_resources@[i as int]);
                assert(self.card_resources@.skip(i as int).skip(1) =~= self.card_resources@.skip(i as int + 1));
            }
            if entry.card_index == card_index && entry.kind == kind {
                return entry.amount;
            }
        }
        proof {
            assert(self.card_resources@.skip(n as int) =~= Seq::<CardResourceEntry>::empty());
        }
        0
    }

    /// The player's total victory points: terraform rating, card formulas,
    /// one point per owned greenery, and city adjacency bonuses.
    pub fn get_total_victory_points(&self, board: &MarsBoard) -> (r: isize)
        requires
            board.wf(),
            forall|i: int| 0 <= i < self.played_cards@.len() ==> spec_points_wf(
                #[trigger] self.deep_view().played_cards[i],
            ),
            forall|i: int| 0 <= i < self.played_cards@.len()
                ==> isize::MIN <= #[trigger] spec_card_points(
                    self.deep_view(),
                    board.cities@.len() as int,
                    i,
                ) <= isize::MAX,
            forall|k: int| 0 <= k <= self.played_cards@.len()
                ==> isize::MIN <= self.terraform_rating + #[trigger] spec_card_points_sum(
                    self.deep_view(),
                    board.cities@.len() as int,
                    k,
                ) <= isize::MAX,
            12 * board.cities@.len() <= usize::MAX,
            spec_total_victory_points(self.deep_view(), *board) <= isize::MAX,
        ensures
            r == spec_total_victory_points(self.deep_view(), *board),
    {
        let ghost pv = self.deep_view();
        let ncities = board.cities.len();
        let ghost nc = ncities as int;

        let mut total: isize = self.terraform_rating as isize;
        let n = self.played_cards.len();
        for i in 0..n
            invariant
                n == self.played_cards@.len(),
                pv == self.deep_view(),
                nc == board.cities@.len() as int,
                ncities == board.cities@.len(),
                total == self.terraform_rating + spec_card_points_sum(pv, nc, i as int),
                forall|j: int| 0 <= j < n ==> spec_points_wf(#[trigger] pv.played_cards[j]),
                forall|j: int| 0 <= j < n
                    ==> isize::MIN <= #[trigger] spec_card_points(pv, nc, j) <= isize::MAX,
                forall|k: int| 0 <= k <= n
                    ==> isize::MIN <= self.terraform_rating + #[trigger] spec_card_points_sum(pv, nc, k)
                        <= isize::MAX,
        {
            proof {
                assert(pv.played_cards[i as int] == self.played_cards@[i as int].deep_view());
                assert(pv.card_resources =~= self.card_resources@);
                assert(spec_card_points_sum(pv, nc, i as int + 1) == spec_card_points_sum(pv, nc, i as int)
                    + spec_card_points(pv, nc, i as int));
            }
            let pts: isize = match self.played_cards[i].points {
                None => 0,
                Some(VictoryPointValue::Immediate(x)) => x,
                Some(VictoryPointValue::PerCity(x)) => (x * ncities) as isize,
                Some(VictoryPointValue::PerNCities(ncards)) => (ncities / ncards) as isize,
                Some(VictoryPointValue::PerTag(vp, cnt, tag)) => {
                    let tag_count = self.active_tag_count(tag);
                    ((tag_count / cnt) * vp) as isize
                }
                Some(VictoryPointValue::PerCardResource(vp, cnt, cr)) => {
                    let amount = self.card_resource_amount(i, cr);
                    ((amount / cnt) * vp) as isize
                }
                Some(VictoryPointValue::FixedPointsIfAnyCardResourcePresent(fixed, cr)) => {
                    let amount = self.card_resource_amount(i, cr);
                    if amount > 0 {
                        fixed as isize
                    } else {
                        0
                    }
                }
            };
            proof {
                assert(pts == spec_card_points(pv, nc, i as int));
            }
            total = total + pts;
        }

        let greenery_points = self.count_owned_greeneries(board);

        let mut city_total: usize = 0;
        let pid = self.player_id;
        for i in 0..ncities
            invariant
                ncities == board.cities@.len(),
                board.wf(),
                pid == self.player_id,
                city_total == spec_city_points_sum(*board, pid, i as int),
                city_total <= 12 * i,
                12 * board.cities@.len() <= usize::MAX,
        {
            proof {
                assert(spec_city_points_sum(*board, pid, i as int + 1) == spec_city_points_sum(
                    *board,
                    pid,
                    i as int,
                ) + spec_city_points(*board, pid, i as int));
                lemma_city_points_bounds(*board, pid, i as int);
            }
            let entry = board.cities[i];
            if entry.2 == pid {
                let statuses = board.get_neighbor_tile_status(&entry.0);
                let ghost sts = board.spec_neighbor_statuses(entry.0);
                let mut adj_oceans: usize = 0;
                let mut adj_greeneries: usize = 0;
                let sn = statuses.len();
                proof {
                    lemma_neighbors_at_most_six(entry.0);
                    assert(sts.subrange(0, 0) =~= Seq::<TileStatus>::empty());
                }
                for k in 0..sn
                    invariant
                        sn == statuses@.len(),
                        sn <= 6,
                        statuses@ == sts,
                        adj_oceans == count_ocean_statuses(sts.subrange(0, k as int)),
                        adj_greeneries == count_greenery_statuses(sts.subrange(0, k as int)),
                        adj_oceans <= k,
                        adj_greeneries <= k,
                {
                    proof {
                        crate::board::lemma_status_counts_push(sts.subrange(0, k as int), sts[k as int], pid);
                        assert(sts.subrange(0, k as int + 1) =~= sts.subrange(0, k as int).push(sts[k as int]));
                    }
                    match &statuses[k] {
                        TileStatus::Ocean(_) => {
                            adj_oceans += 1;
                        }
                        TileStatus::Greenery(_, _) => {
                            adj_greeneries += 1;
                        }
                        _ => {}
                    }
                }
                proof {
                    assert(sts.subrange(0, sn as int) =~= sts);
                }
                let capital_points = if matches!(entry.1, CityKind::Capital) {
                    adj_oceans
                } else {
                    0
                };
                city_total = city_total + capital_points + adj_greeneries;
            }
        }

        proof {
            lemma_count_greeneries_owned_bounds(board.greeneries@, pid);
        }
        let grand = (total as i128) + (greenery_points as i128) + (city_total as i128);
        grand as isize
    }
}

/// An action a player can take on their turn.
#[derive(Clone, Debug, PartialEq, Eq)]
pub enum TurnAction {
    PlayStandardProject,
    PlayCard(Card),
    PerformAction(CardAction),
    ClaimMilestone,
    FundAward,
}

/// The specification-level mirror of [`TurnAction`].
pub enum TurnActionView {
    PlayStandardProject,
    PlayCard(CardView),
    PerformAction(CardActionView),
    ClaimMilestone,
    FundAward,
}

impl DeepView for TurnAction {
    type V = TurnActionView;

    open spec fn deep_view(&self) -> TurnActionView {
        match self {
            TurnAction::PlayStandardProject => TurnActionView::PlayStandardProject,
            TurnAction::PlayCard(c) => TurnActionView::PlayCard(c.deep_view()),
            TurnAction::PerformAction(a) => TurnActionView::PerformAction(a.deep_view()),
            TurnAction::ClaimMilestone => TurnActionView::ClaimMilestone,
            TurnAction::FundAward => TurnActionView::FundAward,
        }
    }
}

/// The metal-value increase never exceeds one machine word per effect.
pub proof fn lemma_metals_increase_upper(effects: Seq<CardEffectView>)
    ensures
        metals_increase(effects) <= effects.len() * (usize::MAX as int),
    decreases effects.len(),
{
    if effects.len() > 0 {
        lemma_metals_increase_upper(effects.skip(1));
        assert((effects.len() - 1) * (usize::MAX as int) + (usize::MAX as int) == effects.len() * (
        usize::MAX as int)) by (nonlinear_arith);
    }
}

/// True iff the card's requirements avoid querying the `Event` tag.
pub fn card_requirements_queryable(card: &Card) -> (r: bool)
    ensures
        r == spec_requirements_queryable(card.deep_view()),
{
    let n = card.requirements.len();
    for k in 0..n
        invariant
            n == card.requirements@.len(),
            forall|j: int| 0 <= j < k
                ==> ((#[trigger] card.deep_view().requirements[j]) matches CardRequirement::MinTags(tag, _)
                    ==> tag != CardTag::Event),
    {
        proof {
            assert(card.deep_view().requirements[k as int] == card.requirements@[k as int]);
        }
        match &card.requirements[k] {
            CardRequirement::MinTags(tag, _) => {
                if matches!(tag, CardTag::Event) {
                    return false;
                }
            }
            _ => {}
        }
    }
    true
}

/// True iff the card's cost is in a payable class.
pub fn card_cost_payable(card: &Card) -> (r: bool)
    ensures
        r == spec_payable_cost_class(card.deep_view().cost),
{
    proof {
        assert(card.deep_view().cost == card.cost);
    }
    matches!(
        card.cost,
        PaymentCost::Megacredits(_) | PaymentCost::Building(_) | PaymentCost::Space(_)
            | PaymentCost::SpaceOrBuilding(_)
    )
}

impl PlayerState {
    /// True iff taking on the card's effects keeps both metal conversion
    /// values within the machine range.
    pub fn metals_increase_fits(&self, card: &Card) -> (r: bool)
        ensures
            r == (self.steel_value + metals_increase(card.effects.deep_view()) <= usize::MAX
                && self.titanium_value + metals_increase(card.effects.deep_view()) <= usize::MAX),
    {
        let ghost es = card.effects.deep_view();
        let mut acc: u128 = 0;
        let n = card.effects.len();
        proof {
            assert(es.subrange(0, 0) =~= Seq::<CardEffectView>::empty());
        }
        for j in 0..n
            invariant
                n == card.effects@.len(),
                es == card.effects.deep_view(),
                acc == metals_increase(es.subrange(0, j as int)),
        {
            proof {
                lemma_metals_increase_push(es.subrange(0, j as int), es[j as int]);
                assert(es.subrange(0, j as int + 1) =~= es.subrange(0, j as int).push(es[j as int]));
                lemma_metals_increase_nonneg(es.subrange(0, j as int));
                lemma_metals_increase_upper(es.subrange(0, j as int));
                assert((j as int) * (usize::MAX as int) <= (u64::MAX as int) * (u64::MAX as int))
                    by (nonlinear_arith)
                    requires
                        0 <= j as int <= u64::MAX as int,
                        usize::MAX as int <= u64::MAX as int,
                ;
            }
            match &card.effects[j] {
                CardEffect::IncreasedMetalsValue(inc) => {
                    acc = acc + (*inc as u128);
                }
                _ => {}
            }
        }
        proof {
            assert(es.subrange(0, n as int) =~= es);
            lemma_metals_increase_nonneg(es);
            lemma_metals_increase_upper(es);
            assert((n as int) * (usize::MAX as int) <= (u64::MAX as int) * (u64::MAX as int))
                by (nonlinear_arith)
                requires
                    0 <= n as int <= u64::MAX as int,
                    usize::MAX as int <= u64::MAX as int,
            ;
        }
        (self.steel_value as u128) + acc <= usize::MAX as u128
            && (self.titanium_value as u128) + acc <= usize::MAX as u128
    }
}

impl PlayerState {
    /// Adds a signed delta to one resource balance.
    pub fn change_resource(&mut self, r: Resource, delta: isize)
        requires
            0 <= old(self).resources.spec_get(r) + delta <= usize::MAX,
        ensures
            *final(self) == (PlayerState {
                resources: old(self).resources.spec_with(
                    r,
                    (old(self).resources.spec_get(r) + delta) as usize,
                ),
                ..*old(self)
            }),
    {
        let cur = self.resources.get(r);
        let nv = (cur as i128) + (delta as i128);
        self.resources.set(r, nv as usize);
    }

    /// Adds a signed delta to one production level, within its floor.
    pub fn change_production(&mut self, r: Resource, delta: isize)
        requires
            old(self).production.spec_get(r) + delta <= isize::MAX,
            old(self).production.spec_get(r) + delta >= isize::MIN,
            r == Resource::Megacredits ==> old(self).production.spec_get(r) + delta
                >= -(old(self).terraform_rating as int),
            r != Resource::Megacredits ==> old(self).production.spec_get(r) + delta >= 0,
        ensures
            *final(self) == (PlayerState {
                production: old(self).production.spec_with(
                    r,
                    (old(self).production.spec_get(r) + delta) as isize,
                ),
                ..*old(self)
            }),
            old(self).wf() ==> final(self).wf(),
    {
        let cur = self.production.get(r);
        let nv = (cur as i128) + (delta as i128);
        self.production.set(r, nv as isize);
    }

    /// Adds a signed delta to the token pool of one kind on one played card,
    /// creating the pool when absent.
    pub fn change_card_resource(&mut self, card_index: usize, kind: CardResource, delta: isize)
        requires
            old(self).wf(),
            card_index < old(self).played_cards@.len(),
            0 <= find_card_resource(old(self).card_resources@, card_index as int, kind) + delta
                <= usize::MAX,
        ensures
            *final(self) == (PlayerState { card_resources: final(self).card_resources, ..*old(self) }),
            find_card_resource(final(self).card_resources@, card_index as int, kind)
                == find_card_resource(old(self).card_resources@, card_index as int, kind) + delta,
            final(self).wf(),
    {
        let current = self.card_resource_amount(card_index, kind);
        let nv = ((current as i128) + (delta as i128)) as usize;
        let n = self.card_resources.len();
        let ghost s = self.card_resources@;
        proof {
            assert(s.skip(0) =~= s);
        }
        for i in 0..n
            invariant
                n == self.card_resources@.len(),
                s == self.card_resources@,
                self == old(self),
                old(self).wf(),
                card_index < old(self).played_cards@.len(),
                nv as int == find_card_resource(s, card_index as int, kind) + delta,
                find_card_resource(s, card_index as int, kind) == find_card_resource(
                    s.skip(i as int),
                    card_index as int,
                    kind,
                ),
                forall|j: int| 0 <= j < i ==> !((#[trigger] s[j]).card_index == card_index
                    && s[j].kind == kind),
        {
            let entry = self.card_resources[i];
            proof {
                assert(s.skip(i as int)[0] == s[i as int]);
                assert(s.skip(i as int).skip(1) =~= s.skip(i as int + 1));
            }
            if entry.card_index == card_index && entry.kind == kind {
                let updated = CardResourceEntry { card_index, kind, amount: nv };
                self.card_resources.set(i, updated);
                proof {
                    let t = self.card_resources@;
                    assert forall|j: int| 0 <= j < i implies !((#[trigger] t[j]).card_index
                        == card_index && t[j].kind == kind) by {
                        assert(t[j] == s[j]);
                    }
                    lemma_find_card_resource_prefix_skip(t, card_index as int, kind, i as int);
                    assert(t.skip(i as int)[0] == t[i as int]);
                    assert(t[i as int] == updated);
                    assert(find_card_resource(t.skip(i as int), card_index as int, kind)
                        == nv as int);
                    assert forall|i2: int, j2: int| 0 <= i2 < j2 < t.len() implies
                        ((#[trigger] t[i2]).card_index, t[i2].kind) != ((#[trigger] t[j2]).card_index, t[j2].kind) by {
                        assert((t[i2].card_index, t[i2].kind) == (s[i2].card_index, s[i2].kind));
                        assert((t[j2].card_index, t[j2].kind) == (s[j2].card_index, s[j2].kind));
                    }
                    assert forall|i2: int| 0 <= i2 < t.len() implies
                        (#[trigger] t[i2]).card_index < self.played_cards@.len() by {
                        assert(t[i2].card_index == s[i2].card_index);
                    }
                }
                return ;
            }
        }
        let entry = CardResourceEntry { card_index, kind, amount: nv };
        self.card_resources.push(entry);
        proof {
            let t = self.card_resources@;
            lemma_find_card_resource_prefix_skip(t, card_index as int, kind, n as int);
            assert(t.skip(n as int)[0] == t[n as int]);
            assert(t.skip(n as int).skip(1) =~= Seq::<CardResourceEntry>::empty());
            assert(find_card_resource(t, card_index as int, kind) == nv as int);
            assert forall|i2: int, j2: int| 0 <= i2 < j2 < t.len() implies
                ((#[trigger] t[i2]).card_index, t[i2].kind) != ((#[trigger] t[j2]).card_index, t[j2].kind) by {
                if j2 == s.len() {
                    assert(t[i2] == s[i2]);
                }
            }
        }
    }

    /// Marks the played card at the index as used this generation; marking
    /// an already-used card changes nothing.
    pub fn mark_card_action_used(&mut self, card_index: usize)
        requires
            old(self).wf(),
            card_index < old(self).played_cards@.len(),
        ensures
            *final(self) == (PlayerState {
                tapped_active_cards: final(self).tapped_active_cards,
                ..*old(self)
            }),
            final(self).tapped_active_cards@ == if old(self).tapped_active_cards@.contains(
                card_index,
            ) {
                old(self).tapped_active_cards@
            } else {
                old(self).tapped_active_cards@.push(card_index)
            },
            final(self).wf(),
    {
        let n = self.tapped_active_cards.len();
        for i in 0..n
            invariant
                n == self.tapped_active_cards@.len(),
                self == old(self),
                old(self).wf(),
                card_index < old(self).played_cards@.len(),
                forall|j: int| 0 <= j < i ==> self.tapped_active_cards@[j] != card_index,
        {
            if self.tapped_active_cards[i] == card_index {
                return ;
            }
        }
        proof {
            assert(!old(self).tapped_active_cards@.contains(card_index));
        }
        self.tapped_active_cards.push(card_index);
        proof {
            let t = self.tapped_active_cards@;
            assert forall|i2: int, j2: int| 0 <= i2 < j2 < t.len() implies
                (#[trigger] t[i2]) != (#[trigger] t[j2]) by {
                if j2 == t.len() - 1 {
                    assert(t[i2] == old(self).tapped_active_cards@[i2]);
                }
            }
        }
    }

    /// Clears the tap-state of every active card.
    pub fn reset_card_actions(&mut self)
        ensures
            *final(self) == (PlayerState {
                tapped_active_cards: final(self).tapped_active_cards,
                ..*old(self)
            }),
            final(self).tapped_active_cards@.len() == 0,
            old(self).wf() ==> final(self).wf(),
    {
        self.tapped_active_cards.clear();
    }
}

/// Skipping a prefix without a match leaves the found amount unchanged.
pub proof fn lemma_find_card_resource_prefix_skip(
    s: Seq<CardResourceEntry>,
    idx: int,
    kind: CardResource,
    k: int,
)
    requires
        0 <= k <= s.len(),
        forall|j: int| 0 <= j < k ==> !((#[trigger] s[j]).card_index == idx && s[j].kind == kind),
    ensures
        find_card_resource(s, idx, kind) == find_card_resource(s.skip(k), idx, kind),
    decreases k,
{
    if k > 0 {
        lemma_find_card_resource_prefix_skip_step(s, idx, kind, k);
    } else {
        assert(s.skip(0) =~= s);
    }
}

/// One step of the prefix-skip argument.
proof fn lemma_find_card_resource_prefix_skip_step(
    s: Seq<CardResourceEntry>,
    idx: int,
    kind: CardResource,
    k: int,
)
    requires
        0 < k <= s.len(),
        forall|j: int| 0 <= j < k ==> !((#[trigger] s[j]).card_index == idx && s[j].kind == kind),
    ensures
        find_card_resource(s, idx, kind) == find_card_resource(s.skip(k), idx, kind),
    decreases k,
{
    if k == 1 {
        assert(s.skip(0) =~= s);
        assert(s.skip(0).skip(1) =~= s.skip(1));
    } else {
        lemma_find_card_resource_prefix_skip_step(s.skip(1), idx, kind, k - 1);
        assert forall|j: int| 0 <= j < k - 1 implies !((#[trigger] s.skip(1)[j]).card_index == idx
            && s.skip(1)[j].kind == kind) by {
            assert(s.skip(1)[j] == s[j + 1]);
        }
        assert(s.skip(1).skip(k - 1) =~= s.skip(k));
    }
}

/// Makes a copy of a turn action with the same deep view.
pub fn dup_turn_action(x: &TurnAction) -> (r: TurnAction)
    ensures
        r.deep_view() == x.deep_view(),
{
    match x {
        TurnAction::PlayStandardProject => TurnAction::PlayStandardProject,
        TurnAction::PlayCard(c) => TurnAction::PlayCard(c.duplicate()),
        TurnAction::PerformAction(a) => TurnAction::PerformAction(crate::card::dup_action(a)),
        TurnAction::ClaimMilestone => TurnAction::ClaimMilestone,
        TurnAction::FundAward => TurnAction::FundAward,
    }
}

/// A player's whole turn: up to two actions, or a pass.
#[derive(Clone, Debug, PartialEq, Eq)]
pub enum PlayerTurn {
    Play(TurnAction, Option<TurnAction>),
    Pass,
}

/// The specification-level mirror of [`PlayerTurn`].
pub enum PlayerTurnView {
    Play(TurnActionView, Option<TurnActionView>),
    Pass,
}

impl DeepView for PlayerTurn {
    type V = PlayerTurnView;

    open spec fn deep_view(&self) -> PlayerTurnView {
        match self {
            PlayerTurn::Play(a, b) => PlayerTurnView::Play(a.deep_view(), b.deep_view()),
            PlayerTurn::Pass => PlayerTurnView::Pass,
        }
    }
}

} // verus!
