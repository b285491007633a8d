//! The card catalog model: tags, requirements, impacts, actions, passive
//! effects, and the immutable `Card` value built from them.
//!
//! Enum variants that carry a `Vec` payload get a mirror type holding a `Seq`,
//! reached through `DeepView`; contracts speak of those mirrors so that two
//! cards with the same content are equal at the specification level even when
//! their heap allocations differ.
use vstd::prelude::*;

use crate::resource::{CardResource, PaymentCost, Resource};

verus! {

/// A category label on a card, used for requirement checks and synergies.
#[derive(Clone, Copy, Debug, PartialEq, Eq, Structural)]
pub enum CardTag {
    Building,
    Space,
    Power,
    Science,
    Jovian,
    Earth,
    Plant,
    Microbe,
    Animal,
    City,
    Wild,
    Event,
}

/// A global or player-local precondition a card demands before it can be
/// played.
#[derive(Clone, Copy, Debug, PartialEq, Eq, Structural)]
pub enum CardRequirement {
    MaxOxygen(usize),
    MinOxygen(usize),
    MaxTemperature(isize),
    MinTemperature(isize),
    MaxOceans(usize),
    MinOceans(usize),
    MinTags(CardTag, usize),
    MinOwnedGreeneries(usize),
    MinProduction(Resource, usize),
}

/// Whether a card stays in play with repeatable actions (`Active`), stays in
/// play passively (`Automatic`), or resolves once and leaves play (`Event`).
#[derive(Clone, Copy, Debug, PartialEq, Eq, Structural)]
pub enum CardKind {
    Active,
    Automatic,
    Event,
}

/// A named off-board location or a named special area of the map.
#[derive(Clone, Copy, Debug, PartialEq, Eq, Structural)]
pub enum SpecialLocation {
    PhobosSpaceHaven,
    GanymedeColony,
    NoctisCity,
    VolcanicArea,
}

/// The kind of a city tile.
#[derive(Clone, Copy, Debug, PartialEq, Eq, Structural)]
pub enum CityKind {
    RegularCity,
    Capital,
    NoctisCity,
    PhobosSpaceHaven,
    GanymedeColony,
    LavaTunnelCity,
    UrbanizedArea,
    ResearchOutpost,
}

/// The kind of a special (non-city, non-ocean, non-greenery) tile.
#[derive(Clone, Copy, Debug, PartialEq, Eq, Structural)]
pub enum SpecialTile {
    NuclearZone,
    RestrictedArea,
    LavaFlows,
    CommercialDistrict,
    NaturalPreserve,
    IndustrialCenter,
    MoholeArea,
    EcologicalZone,
    MiningRights,
    MiningArea,
}

/// A single placement restriction checked against the board when a tile is
/// placed.
#[derive(Clone, Copy, Debug, PartialEq, Eq, Structural)]
pub enum LocationRestriction {
    LandTile,
    ReservedForOcean,
    AdjacentToOwnedTile,
    AdjacentToOwnedTileIfAble,
    NotNextToAnyOtherTile,
    NotNextToACity,
    NextToACity,
    NextToAtLeastTwoCities,
    NextToAGreenery,
    OnSteelOrTitaniumPlacementBonus,
    AtSpecialLocation(SpecialLocation),
}

/// A card's victory-point formula.
#[derive(Clone, Copy, Debug, PartialEq, Eq, Structural)]
pub enum VictoryPointValue {
    Immediate(isize),
    PerCity(usize),
    PerNCities(usize),
    PerTag(usize, usize, CardTag),
    PerCardResource(usize, usize, CardResource),
    FixedPointsIfAnyCardResourcePresent(usize, CardResource),
}

impl DeepView for CardTag {
    type V = CardTag;

    open spec fn deep_view(&self) -> CardTag {
        *self
    }
}

impl DeepView for CardRequirement {
    type V = CardRequirement;

    open spec fn deep_view(&self) -> CardRequirement {
        *self
    }
}

impl DeepView for CardKind {
    type V = CardKind;

    open spec fn deep_view(&self) -> CardKind {
        *self
    }
}

impl DeepView for SpecialLocation {
    type V = SpecialLocation;

    open spec fn deep_view(&self) -> SpecialLocation {
        *self
    }
}

impl DeepView for CityKind {
    type V = CityKind;

    open spec fn deep_view(&self) -> CityKind {
        *self
    }
}

impl DeepView for SpecialTile {
    type V = SpecialTile;

    open spec fn deep_view(&self) -> SpecialTile {
        *self
    }
}

impl DeepView for LocationRestriction {
    type V = LocationRestriction;

    open spec fn deep_view(&self) -> LocationRestriction {
        *self
    }
}

impl DeepView for VictoryPointValue {
    type V = VictoryPointValue;

    open spec fn deep_view(&self) -> VictoryPointValue {
        *self
    }
}

/// One immediate consequence of playing a card or receiving a placement bonus.
#[derive(Clone, Debug, PartialEq, Eq)]
pub enum ImmediateImpact {
    RaiseTemperature,
    RaiseOxygen,
    RaiseTerraformRating,
    /// Gain the first count of terraform rating per the second count of the tag.
    GainTerraformRatingPerOwnTag(usize, CardTag, usize),
    PlaceOcean(Vec<LocationRestriction>),
    PlaceGreenery(Vec<LocationRestriction>),
    PlaceCity(CityKind, Vec<LocationRestriction>),
    DrawCard(usize),
    /// Add tokens to the card that caused the impact.
    AddResourceToSameCard(CardResource, usize),
    /// Add tokens to a card other than the one that caused the impact.
    AddResourceToAnotherCard(CardResource, usize),
    /// Add tokens to any card, including the one that caused the impact.
    AddResourceToAnyCard(CardResource, usize),
    /// Add tokens to the card just played; used when triggered from an effect.
    AddResourceToPlayedCard(CardResource, usize),
    GainResource(Resource, usize),
    GainResourcePerCity(Resource, usize),
    GainResourcePerCityOnMars(Resource, usize),
    GainProduction(Resource, usize),
    GainProductionPerCity(Resource, usize),
    GainProductionPerCityOnMars(Resource, usize),
    /// Raise the production matching a steel or titanium placement bonus.
    GainMiningProductionMatchingPlacementBonus(usize),
    /// Per the given count of the tag, gain the resource production of the
    /// given magnitude: (tag, tag count, resource, magnitude).
    GainProductionPerOwnTag(CardTag, usize, Resource, usize),
    GainProductionPerOpponentTag(CardTag, usize, Resource, usize),
    GainProductionPerAnyTag(CardTag, usize, Resource, usize),
    DestroyOwnPlants(usize),
    DestroyAnyPlants(usize),
    PlaceSpecialTile(SpecialTile, Vec<LocationRestriction>),
    CopyProductionOfCard(CardTag),
}

/// The specification-level mirror of [`ImmediateImpact`], with restriction
/// lists as sequences.
pub enum ImmediateImpactView {
    RaiseTemperature,
    RaiseOxygen,
    RaiseTerraformRating,
    GainTerraformRatingPerOwnTag(usize, CardTag, usize),
    PlaceOcean(Seq<LocationRestriction>),
    PlaceGreenery(Seq<LocationRestriction>),
    PlaceCity(CityKind, Seq<LocationRestriction>),
    DrawCard(usize),
    AddResourceToSameCard(CardResource, usize),
    AddResourceToAnotherCard(CardResource, usize),
    AddResourceToAnyCard(CardResource, usize),
    AddResourceToPlayedCard(CardResource, usize),
    GainResource(Resource, usize),
    GainResourcePerCity(Resource, usize),
    GainResourcePerCityOnMars(Resource, usize),
    GainProduction(Resource, usize),
    GainProductionPerCity(Resource, usize),
    GainProductionPerCityOnMars(Resource, usize),
    GainMiningProductionMatchingPlacementBonus(usize),
    GainProductionPerOwnTag(CardTag, usize, Resource, usize),
    GainProductionPerOpponentTag(CardTag, usize, Resource, usize),
    GainProductionPerAnyTag(CardTag, usize, Resource, usize),
    DestroyOwnPlants(usize),
    DestroyAnyPlants(usize),
    PlaceSpecialTile(SpecialTile, Seq<LocationRestriction>),
    CopyProductionOfCard(CardTag),
}

impl DeepView for ImmediateImpact {
    type V = ImmediateImpactView;

    open spec fn deep_view(&self) -> ImmediateImpactView {
        match self {
            ImmediateImpact::RaiseTemperature => ImmediateImpactView::RaiseTemperature,
            ImmediateImpact::RaiseOxygen => ImmediateImpactView::RaiseOxygen,
            ImmediateImpact::RaiseTerraformRating => ImmediateImpactView::RaiseTerraformRating,
            ImmediateImpact::GainTerraformRatingPerOwnTag(n, t, k) => ImmediateImpactView::GainTerraformRatingPerOwnTag(*n, *t, *k),
            ImmediateImpact::PlaceOcean(rs) => ImmediateImpactView::PlaceOcean(rs.deep_view()),
            ImmediateImpact::PlaceGreenery(rs) => ImmediateImpactView::PlaceGreenery(rs.deep_view()),
            ImmediateImpact::PlaceCity(k, rs) => ImmediateImpactView::PlaceCity(*k, rs.deep_view()),
            ImmediateImpact::DrawCard(n) => ImmediateImpactView::DrawCard(*n),
            ImmediateImpact::AddResourceToSameCard(c, n) => ImmediateImpactView::AddResourceToSameCard(*c, *n),
            ImmediateImpact::AddResourceToAnotherCard(c, n) => ImmediateImpactView::AddResourceToAnotherCard(*c, *n),
            ImmediateImpact::AddResourceToAnyCard(c, n) => ImmediateImpactView::AddResourceToAnyCard(*c, *n),
            ImmediateImpact::AddResourceToPlayedCard(c, n) => ImmediateImpactView::AddResourceToPlayedCard(*c, *n),
            ImmediateImpact::GainResource(r, n) => ImmediateImpactView::GainResource(*r, *n),
            ImmediateImpact::GainResourcePerCity(r, n) => ImmediateImpactView::GainResourcePerCity(*r, *n),
            ImmediateImpact::GainResourcePerCityOnMars(r, n) => ImmediateImpactView::GainResourcePerCityOnMars(*r, *n),
            ImmediateImpact::GainProduction(r, n) => ImmediateImpactView::GainProduction(*r, *n),
            ImmediateImpact::GainProductionPerCity(r, n) => ImmediateImpactView::GainProductionPerCity(*r, *n),
            ImmediateImpact::GainProductionPerCityOnMars(r, n) => ImmediateImpactView::GainProductionPerCityOnMars(*r, *n),
            ImmediateImpact::GainMiningProductionMatchingPlacementBonus(n) => ImmediateImpactView::GainMiningProductionMatchingPlacementBonus(*n),
            ImmediateImpact::GainProductionPerOwnTag(t, k, r, n) => ImmediateImpactView::GainProductionPerOwnTag(*t, *k, *r, *n),
            ImmediateImpact::GainProductionPerOpponentTag(t, k, r, n) => ImmediateImpactView::GainProductionPerOpponentTag(*t, *k, *r, *n),
            ImmediateImpact::GainProductionPerAnyTag(t, k, r, n) => ImmediateImpactView::GainProductionPerAnyTag(*t, *k, *r, *n),
            ImmediateImpact::DestroyOwnPlants(n) => ImmediateImpactView::DestroyOwnPlants(*n),
            ImmediateImpact::DestroyAnyPlants(n) => ImmediateImpactView::DestroyAnyPlants(*n),
            ImmediateImpact::PlaceSpecialTile(t, rs) => ImmediateImpactView::PlaceSpecialTile(*t, rs.deep_view()),
            ImmediateImpact::CopyProductionOfCard(t) => ImmediateImpactView::CopyProductionOfCard(*t),
        }
    }
}

/// A repeatable action printed on an `Active` card.
#[derive(Clone, Debug, PartialEq, Eq)]
pub enum CardAction {
    CauseFreeImpact(ImmediateImpact),
    SpendResource(PaymentCost, Vec<ImmediateImpact>),
    SpendProduction(Resource, usize, Vec<ImmediateImpact>),
    /// Spend tokens of the same card that carries this action.
    SpendSameCardResource(CardResource, usize, ImmediateImpact),
    /// Take tokens from any card holding the matching resource, an opponent's
    /// card included.
    TakeAnyCardResource(CardResource, usize, ImmediateImpact),
    /// Pay the resource, then draw and discard a card; if the revealed card
    /// carries the tag, cause the impact.
    RandomizeBasedOnRevealedCardTag(Resource, usize, CardTag, ImmediateImpact),
}

/// The specification-level mirror of [`CardAction`].
pub enum CardActionView {
    CauseFreeImpact(ImmediateImpactView),
    SpendResource(PaymentCost, Seq<ImmediateImpactView>),
    SpendProduction(Resource, usize, Seq<ImmediateImpactView>),
    SpendSameCardResource(CardResource, usize, ImmediateImpactView),
    TakeAnyCardResource(CardResource, usize, ImmediateImpactView),
    RandomizeBasedOnRevealedCardTag(Resource, usize, CardTag, ImmediateImpactView),
}

impl DeepView for CardAction {
    type V = CardActionView;

    open spec fn deep_view(&self) -> CardActionView {
        match self {
            CardAction::CauseFreeImpact(i) => CardActionView::CauseFreeImpact(i.deep_view()),
            CardAction::SpendResource(c, is) => CardActionView::SpendResource(*c, is.deep_view()),
            CardAction::SpendProduction(r, n, is) => CardActionView::SpendProduction(*r, *n, is.deep_view()),
            CardAction::SpendSameCardResource(c, n, i) => CardActionView::SpendSameCardResource(*c, *n, i.deep_view()),
            CardAction::TakeAnyCardResource(c, n, i) => CardActionView::TakeAnyCardResource(*c, *n, i.deep_view()),
            CardAction::RandomizeBasedOnRevealedCardTag(r, n, t, i) => CardActionView::RandomizeBasedOnRevealedCardTag(*r, *n, *t, i.deep_view()),
        }
    }
}

/// An always-on passive effect contributed by a played card.
#[derive(Clone, Debug, PartialEq, Eq)]
pub enum CardEffect {
    AnyCardDiscount(usize),
    CardDiscountForTag(CardTag, usize),
    /// Steel and titanium gain additional value when converted to megacredits.
    IncreasedMetalsValue(usize),
    RebateForStandardProjects(usize),
    /// Global requirements are eased by the magnitude, at the player's choice.
    GlobalRequirementsTolerance(usize),
    CannotRemoveThisCardResource(CardResource),
    CannotRemoveAnyCardResources(Vec<CardResource>),
    OnAnyPlacedOcean(ImmediateImpact),
    OnAnyPlacedCity(ImmediateImpact),
    OnAnyTagPlayed(CardTag, ImmediateImpact),
    OnOwnPlacedGreenery(ImmediateImpact),
    OnOwnTagPlayed(CardTag, ImmediateImpact),
    /// All the tags are on the same card.
    OnOwnTagCombinationPlayed(Vec<CardTag>, Vec<ImmediateImpact>),
}

/// The specification-level mirror of [`CardEffect`].
pub enum CardEffectView {
    AnyCardDiscount(usize),
    CardDiscountForTag(CardTag, usize),
    IncreasedMetalsValue(usize),
    RebateForStandardProjects(usize),
    GlobalRequirementsTolerance(usize),
    CannotRemoveThisCardResource(CardResource),
    CannotRemoveAnyCardResources(Seq<CardResource>),
    OnAnyPlacedOcean(ImmediateImpactView),
    OnAnyPlacedCity(ImmediateImpactView),
    OnAnyTagPlayed(CardTag, ImmediateImpactView),
    OnOwnPlacedGreenery(ImmediateImpactView),
    OnOwnTagPlayed(CardTag, ImmediateImpactView),
    OnOwnTagCombinationPlayed(Seq<CardTag>, Seq<ImmediateImpactView>),
}

impl DeepView for CardEffect {
    type V = CardEffectView;

    open spec fn deep_view(&self) -> CardEffectView {
        match self {
            CardEffect::AnyCardDiscount(n) => CardEffectView::AnyCardDiscount(*n),
            CardEffect::CardDiscountForTag(t, n) => CardEffectView::CardDiscountForTag(*t, *n),
            CardEffect::IncreasedMetalsValue(n) => CardEffectView::IncreasedMetalsValue(*n),
            CardEffect::RebateForStandardProjects(n) => CardEffectView::RebateForStandardProjects(*n),
            CardEffect::GlobalRequirementsTolerance(n) => CardEffectView::GlobalRequirementsTolerance(*n),
            CardEffect::CannotRemoveThisCardResource(c) => CardEffectView::CannotRemoveThisCardResource(*c),
            CardEffect::CannotRemoveAnyCardResources(cs) => CardEffectView::CannotRemoveAnyCardResources(cs.deep_view()),
            CardEffect::OnAnyPlacedOcean(i) => CardEffectView::OnAnyPlacedOcean(i.deep_view()),
            CardEffect::OnAnyPlacedCity(i) => CardEffectView::OnAnyPlacedCity(i.deep_view()),
            CardEffect::OnAnyTagPlayed(t, i) => CardEffectView::OnAnyTagPlayed(*t, i.deep_view()),
            CardEffect::OnOwnPlacedGreenery(i) => CardEffectView::OnOwnPlacedGreenery(i.deep_view()),
            CardEffect::OnOwnTagPlayed(t, i) => CardEffectView::OnOwnTagPlayed(*t, i.deep_view()),
            CardEffect::OnOwnTagCombinationPlayed(ts, is) => CardEffectView::OnOwnTagCombinationPlayed(ts.deep_view(), is.deep_view()),
        }
    }
}

/// An immutable card: its printed name, kind, tags, cost, preconditions,
/// victory-point formula, production deltas, immediate impacts, repeatable
/// actions, and passive effects.
///
/// Production deltas are association lists from a currency to a signed delta.
#[derive(Clone, Debug, PartialEq, Eq)]
pub struct Card {
    pub name: String,
    pub kind: CardKind,
    pub tags: Vec<CardTag>,
    pub cost: PaymentCost,
    pub requirements: Vec<CardRequirement>,
    pub points: Option<VictoryPointValue>,
    /// The card player's own production change.
    pub own_production: Vec<(Resource, isize)>,
    /// Any player's production change, for stealing production.
    pub any_production: Vec<(Resource, isize)>,
    pub immediate_impacts: Vec<ImmediateImpact>,
    pub actions: Vec<CardAction>,
    pub effects: Vec<CardEffect>,
}

/// The specification-level mirror of [`Card`].
pub struct CardView {
    pub name: Seq<char>,
    pub kind: CardKind,
    pub tags: Seq<CardTag>,
    pub cost: PaymentCost,
    pub requirements: Seq<CardRequirement>,
    pub points: Option<VictoryPointValue>,
    pub own_production: Seq<(Resource, isize)>,
    pub any_production: Seq<(Resource, isize)>,
    pub immediate_impacts: Seq<ImmediateImpactView>,
    pub actions: Seq<CardActionView>,
    pub effects: Seq<CardEffectView>,
}

impl DeepView for Card {
    type V = CardView;

    open spec fn deep_view(&self) -> CardView {
        CardView {
            name: self.name.deep_view(),
            kind: self.kind,
            tags: self.tags.deep_view(),
            cost: self.cost,
            requirements: self.requirements.deep_view(),
            points: self.points,
            own_production: self.own_production.deep_view(),
            any_production: self.any_production.deep_view(),
            immediate_impacts: self.immediate_impacts.deep_view(),
            actions: self.actions.deep_view(),
            effects: self.effects.deep_view(),
        }
    }
}

/// Whether an impact (at the specification level) places a city.
pub open spec fn view_places_city(i: ImmediateImpactView) -> bool {
    i matches ImmediateImpactView::PlaceCity(..)
}

/// Whether an impact places a city.
pub open spec fn impact_places_city(i: ImmediateImpact) -> bool {
    i matches ImmediateImpact::PlaceCity(..)
}

impl CardView {
    /// The structural invariant of a card: actions occur exactly on `Active`
    /// cards; an `Event` card has no actions or passive effects and carries
    /// the `Event` tag; a card tagged `City` places a city.
    pub open spec fn valid(self) -> bool {
        &&& (self.kind == CardKind::Active) <==> self.actions.len() > 0
        &&& self.kind == CardKind::Event ==> self.effects.len() == 0 && self.tags.contains(CardTag::Event)
        &&& self.tags.contains(CardTag::City) ==> exists|i: int|
            0 <= i < self.immediate_impacts.len() && view_places_city(#[trigger] self.immediate_impacts[i])
    }
}

impl Card {
    /// Builds a card, demanding the structural invariant of the arguments.
    pub fn new(
        name: String,
        kind: CardKind,
        tags: Vec<CardTag>,
        cost: PaymentCost,
        requirements: Vec<CardRequirement>,
        points: Option<VictoryPointValue>,
        own_production: Vec<(Resource, isize)>,
        any_production: Vec<(Resource, isize)>,
        immediate_impacts: Vec<ImmediateImpact>,
        actions: Vec<CardAction>,
        effects: Vec<CardEffect>,
    ) -> (card: Card)
        requires
            (kind == CardKind::Active) <==> actions@.len() > 0,
            kind == CardKind::Event ==> effects@.len() == 0 && tags@.contains(CardTag::Event),
            tags@.contains(CardTag::City) ==> exists|i: int|
                0 <= i < immediate_impacts@.len() && impact_places_city(#[trigger] immediate_impacts@[i]),
        ensures
            card == (Card {
                name, kind, tags, cost, requirements, points,
                own_production, any_production, immediate_impacts, actions, effects,
            }),
            card.deep_view().valid(),
    {
        let card = Card {
            name,
            kind,
            tags,
            cost,
            requirements,
            points,
            own_production,
            any_production,
            immediate_impacts,
            actions,
            effects,
        };
        proof {
            let v = card.deep_view();
            assert(v.actions.len() == card.actions@.len());
            assert(v.effects.len() == card.effects@.len());
            assert forall|t: CardTag| card.tags@.contains(t) implies v.tags.contains(t) by {
                let i = choose|i: int| 0 <= i < card.tags@.len() && card.tags@[i] == t;
                assert(v.tags[i] == t);
            }
            assert forall|t: CardTag| v.tags.contains(t) implies card.tags@.contains(t) by {
                let i = choose|i: int| 0 <= i < v.tags.len() && v.tags[i] == t;
                assert(card.tags@[i] == t);
            }
            if v.tags.contains(CardTag::City) {
                let i = choose|i: int|
                    0 <= i < card.immediate_impacts@.len()
                        && impact_places_city(#[trigger] card.immediate_impacts@[i]);
                assert(view_places_city(v.immediate_impacts[i]));
            }
        }
        card
    }
}

/// Makes a copy of a restriction list whose view is the original's view.
pub fn dup_restrictions(v: &Vec<LocationRestriction>) -> (r: Vec<LocationRestriction>)
    ensures
        r@ == v@,
{
    let mut r: Vec<LocationRestriction> = Vec::new();
    let n = v.len();
    for i in 0..n
        invariant
            n == v@.len(),
            r@ == v@.subrange(0, i as int),
    {
        r.push(v[i]);
        proof {
            assert(r@ =~= v@.subrange(0, i + 1 as int));
        }
    }
    proof {
        assert(r@ =~= v@);
    }
    r
}

/// Makes a copy of an impact with the same deep view.
pub fn dup_impact(x: &ImmediateImpact) -> (r: ImmediateImpact)
    ensures
        r.deep_view() == x.deep_view(),
{
    match x {
        ImmediateImpact::RaiseTemperature => ImmediateImpact::RaiseTemperature,
        ImmediateImpact::RaiseOxygen => ImmediateImpact::RaiseOxygen,
        ImmediateImpact::RaiseTerraformRating => ImmediateImpact::RaiseTerraformRating,
        ImmediateImpact::GainTerraformRatingPerOwnTag(n, t, k) => ImmediateImpact::GainTerraformRatingPerOwnTag(*n, *t, *k),
        ImmediateImpact::PlaceOcean(rs) => ImmediateImpact::PlaceOcean(dup_restrictions(rs)),
        ImmediateImpact::PlaceGreenery(rs) => ImmediateImpact::PlaceGreenery(dup_restrictions(rs)),
        ImmediateImpact::PlaceCity(k, rs) => ImmediateImpact::PlaceCity(*k, dup_restrictions(rs)),
        ImmediateImpact::DrawCard(n) => ImmediateImpact::DrawCard(*n),
        ImmediateImpact::AddResourceToSameCard(c, n) => ImmediateImpact::AddResourceToSameCard(*c, *n),
        ImmediateImpact::AddResourceToAnotherCard(c, n) => ImmediateImpact::AddResourceToAnotherCard(*c, *n),
        ImmediateImpact::AddResourceToAnyCard(c, n) => ImmediateImpact::AddResourceToAnyCard(*c, *n),
        ImmediateImpact::AddResourceToPlayedCard(c, n) => ImmediateImpact::AddResourceToPlayedCard(*c, *n),
        ImmediateImpact::GainResource(r, n) => ImmediateImpact::GainResource(*r, *n),
        ImmediateImpact::GainResourcePerCity(r, n) => ImmediateImpact::GainResourcePerCity(*r, *n),
        ImmediateImpact::GainResourcePerCityOnMars(r, n) => ImmediateImpact::GainResourcePerCityOnMars(*r, *n),
        ImmediateImpact::GainProduction(r, n) => ImmediateImpact::GainProduction(*r, *n),
        ImmediateImpact::GainProductionPerCity(r, n) => ImmediateImpact::GainProductionPerCity(*r, *n),
        ImmediateImpact::GainProductionPerCityOnMars(r, n) => ImmediateImpact::GainProductionPerCityOnMars(*r, *n),
        ImmediateImpact::GainMiningProductionMatchingPlacementBonus(n) => ImmediateImpact::GainMiningProductionMatchingPlacementBonus(*n),
        ImmediateImpact::GainProductionPerOwnTag(t, k, r, n) => ImmediateImpact::GainProductionPerOwnTag(*t, *k, *r, *n),
        ImmediateImpact::GainProductionPerOpponentTag(t, k, r, n) => ImmediateImpact::GainProductionPerOpponentTag(*t, *k, *r, *n),
        ImmediateImpact::GainProductionPerAnyTag(t, k, r, n) => ImmediateImpact::GainProductionPerAnyTag(*t, *k, *r, *n),
        ImmediateImpact::DestroyOwnPlants(n) => ImmediateImpact::DestroyOwnPlants(*n),
        ImmediateImpact::DestroyAnyPlants(n) => ImmediateImpact::DestroyAnyPlants(*n),
        ImmediateImpact::PlaceSpecialTile(t, rs) => ImmediateImpact::PlaceSpecialTile(*t, dup_restrictions(rs)),
        ImmediateImpact::CopyProductionOfCard(t) => ImmediateImpact::CopyProductionOfCard(*t),
    }
}

/// Makes a copy of an impact list with the same deep view.
pub fn dup_impacts(v: &Vec<ImmediateImpact>) -> (r: Vec<ImmediateImpact>)
    ensures
        r.deep_view() == v.deep_view(),
{
    let mut r: Vec<ImmediateImpact> = Vec::new();
    let n = v.len();
    for i in 0..n
        invariant
            n == v@.len(),
            r.deep_view() == v.deep_view().subrange(0, i as int),
    {
        let d = dup_impact(&v[i]);
        let ghost prev = r.deep_view();
        r.push(d);
        proof {
            assert(prev.len() == i as int);
            assert(r@.len() == i as int + 1);
            assert(r@[i as int] == d);
            assert forall|j: int| 0 <= j <= i implies
                r.deep_view()[j] == v.deep_view().subrange(0, i as int + 1)[j] by {
                if j < i {
                    assert(r.deep_view()[j] == prev[j]);
                } else {
                    assert(r@[j] == d);
                }
            }
            assert(r.deep_view() =~= v.deep_view().subrange(0, i as int + 1));
        }
    }
    proof {
        assert(r.deep_view() =~= v.deep_view());
    }
    r
}

/// Makes a copy of a vector of copyable elements; the copy's view is the
/// original's view.
pub fn dup_copy_vec<T: Copy>(v: &Vec<T>) -> (r: Vec<T>)
    ensures
        r@ == v@,
{
    let mut r: Vec<T> = Vec::new();
    let n = v.len();
    for i in 0..n
        invariant
            n == v@.len(),
            r@ == v@.subrange(0, i as int),
    {
        r.push(v[i]);
        proof {
            assert(r@ =~= v@.subrange(0, i as int + 1));
        }
    }
    proof {
        assert(r@ =~= v@);
    }
    r
}

/// Makes a copy of an action with the same deep view.
pub fn dup_action(x: &CardAction) -> (r: CardAction)
    ensures
        r.deep_view() == x.deep_view(),
{
    match x {
        CardAction::CauseFreeImpact(i) => CardAction::CauseFreeImpact(dup_impact(i)),
        CardAction::SpendResource(c, is) => CardAction::SpendResource(*c, dup_impacts(is)),
        CardAction::SpendProduction(r, n, is) => CardAction::SpendProduction(*r, *n, dup_impacts(is)),
        CardAction::SpendSameCardResource(c, n, i) => CardAction::SpendSameCardResource(*c, *n, dup_impact(i)),
        CardAction::TakeAnyCardResource(c, n, i) => CardAction::TakeAnyCardResource(*c, *n, dup_impact(i)),
        CardAction::RandomizeBasedOnRevealedCardTag(r, n, t, i) => CardAction::RandomizeBasedOnRevealedCardTag(*r, *n, *t, dup_impact(i)),
    }
}

/// Makes a copy of an action list with the same deep view.
pub fn dup_actions(v: &Vec<CardAction>) -> (r: Vec<CardAction>)
    ensures
        r.deep_view() == v.deep_view(),
{
    let mut r: Vec<CardAction> = Vec::new();
    let n = v.len();
    for i in 0..n
        invariant
            n == v@.len(),
            r.deep_view() == v.deep_view().subrange(0, i as int),
    {
        let d = dup_action(&v[i]);
        let ghost prev = r.deep_view();
        r.push(d);
        proof {
            assert(prev.len() == i as int);
            assert(r@.len() == i as int + 1);
            assert(r@[i as int] == d);
            assert forall|j: int| 0 <= j <= i implies
                r.deep_view()[j] == v.deep_view().subrange(0, i as int + 1)[j] by {
                if j < i {
                    assert(r.deep_view()[j] == prev[j]);
                } else {
                    assert(r@[j] == d);
                }
            }
            assert(r.deep_view() =~= v.deep_view().subrange(0, i as int + 1));
        }
    }
    proof {
        assert(r.deep_view() =~= v.deep_view());
    }
    r
}

/// Makes a copy of an effect with the same deep view.
pub fn dup_effect(x: &CardEffect) -> (r: CardEffect)
    ensures
        r.deep_view() == x.deep_view(),
{
    match x {
        CardEffect::AnyCardDiscount(n) => CardEffect::AnyCardDiscount(*n),
        CardEffect::CardDiscountForTag(t, n) => CardEffect::CardDiscountForTag(*t, *n),
        CardEffect::IncreasedMetalsValue(n) => CardEffect::IncreasedMetalsValue(*n),
        CardEffect::RebateForStandardProjects(n) => CardEffect::RebateForStandardProjects(*n),
        CardEffect::GlobalRequirementsTolerance(n) => CardEffect::GlobalRequirementsTolerance(*n),
        CardEffect::CannotRemoveThisCardResource(c) => CardEffect::CannotRemoveThisCardResource(*c),
        CardEffect::CannotRemoveAnyCardResources(cs) => CardEffect::CannotRemoveAnyCardResources(dup_copy_vec(cs)),
        CardEffect::OnAnyPlacedOcean(i) => CardEffect::OnAnyPlacedOcean(dup_impact(i)),
        CardEffect::OnAnyPlacedCity(i) => CardEffect::OnAnyPlacedCity(dup_impact(i)),
        CardEffect::OnAnyTagPlayed(t, i) => CardEffect::OnAnyTagPlayed(*t, dup_impact(i)),
        CardEffect::OnOwnPlacedGreenery(i) => CardEffect::OnOwnPlacedGreenery(dup_impact(i)),
        CardEffect::OnOwnTagPlayed(t, i) => CardEffect::OnOwnTagPlayed(*t, dup_impact(i)),
        CardEffect::OnOwnTagCombinationPlayed(ts, is) => CardEffect::OnOwnTagCombinationPlayed(dup_copy_vec(ts), dup_impacts(is)),
    }
}

/// Makes a copy of an effect list with the same deep view.
pub fn dup_effects(v: &Vec<CardEffect>) -> (r: Vec<CardEffect>)
    ensures
        r.deep_view() == v.deep_view(),
{
    let mut r: Vec<CardEffect> = Vec::new();
    let n = v.len();
    for i in 0..n
        invariant
            n == v@.len(),
            r.deep_view() == v.deep_view().subrange(0, i as int),
    {
        let d = dup_effect(&v[i]);
        let ghost prev = r.deep_view();
        r.push(d);
        proof {
            assert(prev.len() == i as int);
            assert(r@.len() == i as int + 1);
            assert(r@[i as int] == d);
            assert forall|j: int| 0 <= j <= i implies
                r.deep_view()[j] == v.deep_view().subrange(0, i as int + 1)[j] by {
                if j < i {
                    assert(r.deep_view()[j] == prev[j]);
                } else {
                    assert(r@[j] == d);
                }
            }
            assert(r.deep_view() =~= v.deep_view().subrange(0, i as int + 1));
        }
    }
    proof {
        assert(r.deep_view() =~= v.deep_view());
    }
    r
}

impl Card {
    /// Makes a copy of the card with the same deep view.
    pub fn duplicate(&self) -> (r: Card)
        ensures
            r.deep_view() == self.deep_view(),
    {
        let r = Card {
            name: self.name.clone(),
            kind: self.kind,
            tags: dup_copy_vec(&self.tags),
            cost: self.cost,
            requirements: dup_copy_vec(&self.requirements),
            points: self.points,
            own_production: dup_copy_vec(&self.own_production),
            any_production: dup_copy_vec(&self.any_production),
            immediate_impacts: dup_impacts(&self.immediate_impacts),
            actions: dup_actions(&self.actions),
            effects: dup_effects(&self.effects),
        };
        proof {
            assert(r.tags.deep_view() =~= self.tags.deep_view());
            assert(r.requirements.deep_view() =~= self.requirements.deep_view());
            assert(r.own_production.deep_view() =~= self.own_production.deep_view());
            assert(r.any_production.deep_view() =~= self.any_production.deep_view());
        }
        r
    }
}

/// True iff two restriction lists hold the same restrictions in order.
pub fn restrictions_equal(a: &Vec<LocationRestriction>, b: &Vec<LocationRestriction>) -> (r: bool)
    ensures
        r == (a@ == b@),
{
    if a.len() != b.len() {
        proof {
            assert(a@ != b@);
        }
        return false;
    }
    let n = a.len();
    for i in 0..n
        invariant
            n == a@.len(),
            n == b@.len(),
            forall|j: int| 0 <= j < i ==> a@[j] == b@[j],
    {
        if a[i] != b[i] {
            return false;
        }
    }
    proof {
        assert(a@ =~= b@);
    }
    true
}

/// True iff two tag lists are equal.
pub fn tags_equal(a: &Vec<CardTag>, b: &Vec<CardTag>) -> (r: bool)
    ensures
        r == (a@ == b@),
{
    if a.len() != b.len() {
        proof {
            assert(a@ != b@);
        }
        return false;
    }
    let n = a.len();
    for i in 0..n
        invariant
            n == a@.len(),
            n == b@.len(),
            forall|j: int| 0 <= j < i ==> a@[j] == b@[j],
    {
        if a[i] != b[i] {
            return false;
        }
    }
    proof {
        assert(a@ =~= b@);
    }
    true
}

/// True iff two requirement lists are equal.
pub fn requirements_equal(a: &Vec<CardRequirement>, b: &Vec<CardRequirement>) -> (r: bool)
    ensures
        r == (a@ == b@),
{
    if a.len() != b.len() {
        proof {
            assert(a@ != b@);
        }
        return false;
    }
    let n = a.len();
    for i in 0..n
        invariant
            n == a@.len(),
            n == b@.len(),
            forall|j: int| 0 <= j < i ==> a@[j] == b@[j],
    {
        if a[i] != b[i] {
            return false;
        }
    }
    proof {
        assert(a@ =~= b@);
    }
    true
}

/// True iff two production-delta lists are equal.
pub fn production_entries_equal(a: &Vec<(Resource, isize)>, b: &Vec<(Resource, isize)>) -> (r: bool)
    ensures
        r == (a@ == b@),
{
    if a.len() != b.len() {
        proof {
            assert(a@ != b@);
        }
        return false;
    }
    let n = a.len();
    for i in 0..n
        invariant
            n == a@.len(),
            n == b@.len(),
            forall|j: int| 0 <= j < i ==> a@[j] == b@[j],
    {
        let (ra, da) = a[i];
        let (rb, db) = b[i];
        if ra != rb || da != db {
            return false;
        }
        proof {
            assert(a@[i as int] == b@[i as int]);
        }
    }
    proof {
        assert(a@ =~= b@);
    }
    true
}

/// A distinct code for each impact variant, at the specification level.
pub open spec fn spec_impact_code(v: ImmediateImpactView) -> int {
    match v {
        ImmediateImpactView::RaiseTemperature => 0,
        ImmediateImpactView::RaiseOxygen => 1,
        ImmediateImpactView::RaiseTerraformRating => 2,
        ImmediateImpactView::GainTerraformRatingPerOwnTag(..) => 3,
        ImmediateImpactView::PlaceOcean(..) => 4,
        ImmediateImpactView::PlaceGreenery(..) => 5,
        ImmediateImpactView::PlaceCity(..) => 6,
        ImmediateImpactView::DrawCard(..) => 7,
        ImmediateImpactView::AddResourceToSameCard(..) => 8,
        ImmediateImpactView::AddResourceToAnotherCard(..) => 9,
        ImmediateImpactView::AddResourceToAnyCard(..) => 10,
        ImmediateImpactView::AddResourceToPlayedCard(..) => 11,
        ImmediateImpactView::GainResource(..) => 12,
        ImmediateImpactView::GainResourcePerCity(..) => 13,
        ImmediateImpactView::GainResourcePerCityOnMars(..) => 14,
        ImmediateImpactView::GainProduction(..) => 15,
        ImmediateImpactView::GainProductionPerCity(..) => 16,
        ImmediateImpactView::GainProductionPerCityOnMars(..) => 17,
        ImmediateImpactView::GainMiningProductionMatchingPlacementBonus(..) => 18,
        ImmediateImpactView::GainProductionPerOwnTag(..) => 19,
        ImmediateImpactView::GainProductionPerOpponentTag(..) => 20,
        ImmediateImpactView::GainProductionPerAnyTag(..) => 21,
        ImmediateImpactView::DestroyOwnPlants(..) => 22,
        ImmediateImpactView::DestroyAnyPlants(..) => 23,
        ImmediateImpactView::PlaceSpecialTile(..) => 24,
        ImmediateImpactView::CopyProductionOfCard(..) => 25,
    }
}

/// The variant code of an impact.
pub fn impact_code(a: &ImmediateImpact) -> (c: u8)
    ensures
        c as int == spec_impact_code(a.deep_view()),
{
    match a {
        ImmediateImpact::RaiseTemperature => 0,
        ImmediateImpact::RaiseOxygen => 1,
        ImmediateImpact::RaiseTerraformRating => 2,
        ImmediateImpact::GainTerraformRatingPerOwnTag(..) => 3,
        ImmediateImpact::PlaceOcean(..) => 4,
        ImmediateImpact::PlaceGreenery(..) => 5,
        ImmediateImpact::PlaceCity(..) => 6,
        ImmediateImpact::DrawCard(..) => 7,
        ImmediateImpact::AddResourceToSameCard(..) => 8,
        ImmediateImpact::AddResourceToAnotherCard(..) => 9,
        ImmediateImpact::AddResourceToAnyCard(..) => 10,
        ImmediateImpact::AddResourceToPlayedCard(..) => 11,
        ImmediateImpact::GainResource(..) => 12,
        ImmediateImpact::GainResourcePerCity(..) => 13,
        ImmediateImpact::GainResourcePerCityOnMars(..) => 14,
        ImmediateImpact::GainProduction(..) => 15,
        ImmediateImpact::GainProductionPerCity(..) => 16,
        ImmediateImpact::GainProductionPerCityOnMars(..) => 17,
        ImmediateImpact::GainMiningProductionMatchingPlacementBonus(..) => 18,
        ImmediateImpact::GainProductionPerOwnTag(..) => 19,
        ImmediateImpact::GainProductionPerOpponentTag(..) => 20,
        ImmediateImpact::GainProductionPerAnyTag(..) => 21,
        ImmediateImpact::DestroyOwnPlants(..) => 22,
        ImmediateImpact::DestroyAnyPlants(..) => 23,
        ImmediateImpact::PlaceSpecialTile(..) => 24,
        ImmediateImpact::CopyProductionOfCard(..) => 25,
    }
}

/// True iff two impacts have the same deep view.
pub fn impact_equal(a: &ImmediateImpact, b: &ImmediateImpact) -> (r: bool)
    ensures
        r == (a.deep_view() == b.deep_view()),
{
    let ca = impact_code(a);
    let cb = impact_code(b);
    if ca != cb {
        proof {
            assert(a.deep_view() != b.deep_view());
        }
        return false;
    }
    if ca <= 12 {
        impact_equal_low(a, b)
    } else {
        impact_equal_high(a, b)
    }
}

/// Compares impacts whose shared variant code is at most twelve.
#[verifier::rlimit(100)]
fn impact_equal_low(a: &ImmediateImpact, b: &ImmediateImpact) -> (r: bool)
    requires
        spec_impact_code(a.deep_view()) == spec_impact_code(b.deep_view()),
        spec_impact_code(a.deep_view()) <= 12,
    ensures
        r == (a.deep_view() == b.deep_view()),
{
    let r = match (a, b) {
        (ImmediateImpact::RaiseTemperature, ImmediateImpact::RaiseTemperature) => true,
        (ImmediateImpact::RaiseOxygen, ImmediateImpact::RaiseOxygen) => true,
        (ImmediateImpact::RaiseTerraformRating, ImmediateImpact::RaiseTerraformRating) => true,
        (
            ImmediateImpact::GainTerraformRatingPerOwnTag(n1, t1, k1),
            ImmediateImpact::GainTerraformRatingPerOwnTag(n2, t2, k2),
        ) => n1 == n2 && t1 == t2 && k1 == k2,
        (ImmediateImpact::PlaceOcean(r1), ImmediateImpact::PlaceOcean(r2)) => restrictions_equal(r1, r2),
        (ImmediateImpact::PlaceGreenery(r1), ImmediateImpact::PlaceGreenery(r2)) => restrictions_equal(r1, r2),
        (ImmediateImpact::PlaceCity(k1, r1), ImmediateImpact::PlaceCity(k2, r2)) => k1 == k2
            && restrictions_equal(r1, r2),
        (ImmediateImpact::DrawCard(n1), ImmediateImpact::DrawCard(n2)) => n1 == n2,
        (
            ImmediateImpact::AddResourceToSameCard(c1, n1),
            ImmediateImpact::AddResourceToSameCard(c2, n2),
        ) => c1 == c2 && n1 == n2,
        (
            ImmediateImpact::AddResourceToAnotherCard(c1, n1),
            ImmediateImpact::AddResourceToAnotherCard(c2, n2),
        ) => c1 == c2 && n1 == n2,
        (
            ImmediateImpact::AddResourceToAnyCard(c1, n1),
            ImmediateImpact::AddResourceToAnyCard(c2, n2),
        ) => c1 == c2 && n1 == n2,
        (
            ImmediateImpact::AddResourceToPlayedCard(c1, n1),
            ImmediateImpact::AddResourceToPlayedCard(c2, n2),
        ) => c1 == c2 && n1 == n2,
        (ImmediateImpact::GainResource(r1, n1), ImmediateImpact::GainResource(r2, n2)) => r1 == r2
            && n1 == n2,
        _ => false,
    };
    proof {
        if a.deep_view() == b.deep_view() {
            lemma_restriction_payloads_from_deep_eq(a, b);
        }
    }
    r
}

/// Compares impacts whose shared variant code is at least thirteen.
#[verifier::rlimit(100)]
fn impact_equal_high(a: &ImmediateImpact, b: &ImmediateImpact) -> (r: bool)
    requires
        spec_impact_code(a.deep_view()) == spec_impact_code(b.deep_view()),
        spec_impact_code(a.deep_view()) > 12,
    ensures
        r == (a.deep_view() == b.deep_view()),
{
    let r = match (a, b) {
        (
            ImmediateImpact::GainResourcePerCity(r1, n1),
            ImmediateImpact::GainResourcePerCity(r2, n2),
        ) => r1 == r2 && n1 == n2,
        (
            ImmediateImpact::GainResourcePerCityOnMars(r1, n1),
            ImmediateImpact::GainResourcePerCityOnMars(r2, n2),
        ) => r1 == r2 && n1 == n2,
        (ImmediateImpact::GainProduction(r1, n1), ImmediateImpact::GainProduction(r2, n2)) => r1
            == r2 && n1 == n2,
        (
            ImmediateImpact::GainProductionPerCity(r1, n1),
            ImmediateImpact::GainProductionPerCity(r2, n2),
        ) => r1 == r2 && n1 == n2,
        (
            ImmediateImpact::GainProductionPerCityOnMars(r1, n1),
            ImmediateImpact::GainProductionPerCityOnMars(r2, n2),
        ) => r1 == r2 && n1 == n2,
        (
            ImmediateImpact::GainMiningProductionMatchingPlacementBonus(n1),
            ImmediateImpact::GainMiningProductionMatchingPlacementBonus(n2),
        ) => n1 == n2,
        (
            ImmediateImpact::GainProductionPerOwnTag(t1, k1, r1, n1),
            ImmediateImpact::GainProductionPerOwnTag(t2, k2, r2, n2),
        ) => t1 == t2 && k1 == k2 && r1 == r2 && n1 == n2,
        (
            ImmediateImpact::GainProductionPerOpponentTag(t1, k1, r1, n1),
            ImmediateImpact::GainProductionPerOpponentTag(t2, k2, r2, n2),
        ) => t1 == t2 && k1 == k2 && r1 == r2 && n1 == n2,
        (
            ImmediateImpact::GainProductionPerAnyTag(t1, k1, r1, n1),
            ImmediateImpact::GainProductionPerAnyTag(t2, k2, r2, n2),
        ) => t1 == t2 && k1 == k2 && r1 == r2 && n1 == n2,
        (ImmediateImpact::DestroyOwnPlants(n1), ImmediateImpact::DestroyOwnPlants(n2)) => n1 == n2,
        (ImmediateImpact::DestroyAnyPlants(n1), ImmediateImpact::DestroyAnyPlants(n2)) => n1 == n2,
        (
            ImmediateImpact::PlaceSpecialTile(t1, r1),
            ImmediateImpact::PlaceSpecialTile(t2, r2),
        ) => t1 == t2 && restrictions_equal(r1, r2),
        (
            ImmediateImpact::CopyProductionOfCard(t1),
            ImmediateImpact::CopyProductionOfCard(t2),
        ) => t1 == t2,
        _ => false,
    };
    proof {
        if a.deep_view() == b.deep_view() {
            lemma_restriction_payloads_from_deep_eq(a, b);
        }
    }
    r
}

/// Deeply equal impacts carry value-equal restriction lists.
proof fn lemma_restriction_payloads_from_deep_eq(a: &ImmediateImpact, b: &ImmediateImpact)
    requires
        a.deep_view() == b.deep_view(),
    ensures
        a matches ImmediateImpact::PlaceOcean(r1) ==> (b matches ImmediateImpact::PlaceOcean(r2)
            && r1@ == r2@),
        a matches ImmediateImpact::PlaceGreenery(r1) ==> (b matches ImmediateImpact::PlaceGreenery(r2)
            && r1@ == r2@),
        a matches ImmediateImpact::PlaceCity(k1, r1) ==> (b matches ImmediateImpact::PlaceCity(k2, r2)
            && k1 == k2 && r1@ == r2@),
        a matches ImmediateImpact::PlaceSpecialTile(t1, r1) ==> (b matches
            ImmediateImpact::PlaceSpecialTile(t2, r2) && t1 == t2 && r1@ == r2@),
{
    match (a, b) {
        (ImmediateImpact::PlaceOcean(r1), ImmediateImpact::PlaceOcean(r2)) => {
            assert(r1.deep_view() == r2.deep_view());
            assert(r1@.len() == r2@.len());
            assert forall|j: int| 0 <= j < r1@.len() implies r1@[j] == r2@[j] by {
                assert(r1.deep_view()[j] == r2.deep_view()[j]);
            }
            assert(r1@ =~= r2@);
        }
        (ImmediateImpact::PlaceGreenery(r1), ImmediateImpact::PlaceGreenery(r2)) => {
            assert(r1.deep_view() == r2.deep_view());
            assert(r1@.len() == r2@.len());
            assert forall|j: int| 0 <= j < r1@.len() implies r1@[j] == r2@[j] by {
                assert(r1.deep_view()[j] == r2.deep_view()[j]);
            }
            assert(r1@ =~= r2@);
        }
        (ImmediateImpact::PlaceCity(_, r1), ImmediateImpact::PlaceCity(_, r2)) => {
            assert(r1.deep_view() == r2.deep_view());
            assert(r1@.len() == r2@.len());
            assert forall|j: int| 0 <= j < r1@.len() implies r1@[j] == r2@[j] by {
                assert(r1.deep_view()[j] == r2.deep_view()[j]);
            }
            assert(r1@ =~= r2@);
        }
        (ImmediateImpact::PlaceSpecialTile(_, r1), ImmediateImpact::PlaceSpecialTile(_, r2)) => {
            assert(r1.deep_view() == r2.deep_view());
            assert(r1@.len() == r2@.len());
            assert forall|j: int| 0 <= j < r1@.len() implies r1@[j] == r2@[j] by {
                assert(r1.deep_view()[j] == r2.deep_view()[j]);
            }
            assert(r1@ =~= r2@);
        }
        _ => {}
    }
}

/// True iff two impact lists have the same deep view.
pub fn impacts_equal(a: &Vec<ImmediateImpact>, b: &Vec<ImmediateImpact>) -> (r: bool)
    ensures
        r == (a.deep_view() == b.deep_view()),
{
    if a.len() != b.len() {
        proof {
            assert(a.deep_view().len() != b.deep_view().len());
        }
        return false;
    }
    let n = a.len();
    for i in 0..n
        invariant
            n == a@.len(),
            n == b@.len(),
            forall|j: int| 0 <= j < i ==> a.deep_view()[j] == b.deep_view()[j],
    {
        if !impact_equal(&a[i], &b[i]) {
            proof {
                assert(a.deep_view()[i as int] == a@[i as int].deep_view());
                assert(b.deep_view()[i as int] == b@[i as int].deep_view());
                if a.deep_view() == b.deep_view() {
                    assert(a.deep_view()[i as int] == b.deep_view()[i as int]);
                }
            }
            return false;
        }
    }
    proof {
        assert(a.deep_view() =~= b.deep_view());
    }
    true
}

/// True iff two actions have the same deep view.
#[verifier::rlimit(100)]
pub fn action_equal(a: &CardAction, b: &CardAction) -> (r: bool)
    ensures
        r == (a.deep_view() == b.deep_view()),
{
    match (a, b) {
        (CardAction::CauseFreeImpact(i1), CardAction::CauseFreeImpact(i2)) => impact_equal(i1, i2),
        (CardAction::SpendResource(c1, is1), CardAction::SpendResource(c2, is2)) => c1 == c2
            && impacts_equal(is1, is2),
        (
            CardAction::SpendProduction(r1, n1, is1),
            CardAction::SpendProduction(r2, n2, is2),
        ) => r1 == r2 && n1 == n2 && impacts_equal(is1, is2),
        (
            CardAction::SpendSameCardResource(c1, n1, i1),
            CardAction::SpendSameCardResource(c2, n2, i2),
        ) => c1 == c2 && n1 == n2 && impact_equal(i1, i2),
        (
            CardAction::TakeAnyCardResource(c1, n1, i1),
            CardAction::TakeAnyCardResource(c2, n2, i2),
        ) => c1 == c2 && n1 == n2 && impact_equal(i1, i2),
        (
            CardAction::RandomizeBasedOnRevealedCardTag(r1, n1, t1, i1),
            CardAction::RandomizeBasedOnRevealedCardTag(r2, n2, t2, i2),
        ) => r1 == r2 && n1 == n2 && t1 == t2 && impact_equal(i1, i2),
        _ => false,
    }
}

/// True iff two action lists have the same deep view.
pub fn actions_equal(a: &Vec<CardAction>, b: &Vec<CardAction>) -> (r: bool)
    ensures
        r == (a.deep_view() == b.deep_view()),
{
    if a.len() != b.len() {
        proof {
            assert(a.deep_view().len() != b.deep_view().len());
        }
        return false;
    }
    let n = a.len();
    for i in 0..n
        invariant
            n == a@.len(),
            n == b@.len(),
            forall|j: int| 0 <= j < i ==> a.deep_view()[j] == b.deep_view()[j],
    {
        if !action_equal(&a[i], &b[i]) {
            proof {
                assert(a.deep_view()[i as int] == a@[i as int].deep_view());
                assert(b.deep_view()[i as int] == b@[i as int].deep_view());
                if a.deep_view() == b.deep_view() {
                    assert(a.deep_view()[i as int] == b.deep_view()[i as int]);
                }
            }
            return false;
        }
    }
    proof {
        assert(a.deep_view() =~= b.deep_view());
    }
    true
}

/// True iff two card-resource lists are equal.
pub fn card_resource_kinds_equal(a: &Vec<CardResource>, b: &Vec<CardResource>) -> (r: bool)
    ensures
        r == (a@ == b@),
{
    if a.len() != b.len() {
        proof {
            assert(a@ != b@);
        }
        return false;
    }
    let n = a.len();
    for i in 0..n
        invariant
            n == a@.len(),
            n == b@.len(),
            forall|j: int| 0 <= j < i ==> a@[j] == b@[j],
    {
        if a[i] != b[i] {
            return false;
        }
    }
    proof {
        assert(a@ =~= b@);
    }
    true
}

/// True iff two effects have the same deep view.
#[verifier::rlimit(100)]
pub fn effect_equal(a: &CardEffect, b: &CardEffect) -> (r: bool)
    ensures
        r == (a.deep_view() == b.deep_view()),
{
    let r = match (a, b) {
        (CardEffect::AnyCardDiscount(n1), CardEffect::AnyCardDiscount(n2)) => n1 == n2,
        (CardEffect::CardDiscountForTag(t1, n1), CardEffect::CardDiscountForTag(t2, n2)) => t1 == t2
            && n1 == n2,
        (CardEffect::IncreasedMetalsValue(n1), CardEffect::IncreasedMetalsValue(n2)) => n1 == n2,
        (
            CardEffect::RebateForStandardProjects(n1),
            CardEffect::RebateForStandardProjects(n2),
        ) => n1 == n2,
        (
            CardEffect::GlobalRequirementsTolerance(n1),
            CardEffect::GlobalRequirementsTolerance(n2),
        ) => n1 == n2,
        (
            CardEffect::CannotRemoveThisCardResource(c1),
            CardEffect::CannotRemoveThisCardResource(c2),
        ) => c1 == c2,
        (
            CardEffect::CannotRemoveAnyCardResources(cs1),
            CardEffect::CannotRemoveAnyCardResources(cs2),
        ) => card_resource_kinds_equal(cs1, cs2),
        (CardEffect::OnAnyPlacedOcean(i1), CardEffect::OnAnyPlacedOcean(i2)) => impact_equal(i1, i2),
        (CardEffect::OnAnyPlacedCity(i1), CardEffect::OnAnyPlacedCity(i2)) => impact_equal(i1, i2),
        (CardEffect::OnAnyTagPlayed(t1, i1), CardEffect::OnAnyTagPlayed(t2, i2)) => t1 == t2
            && impact_equal(i1, i2),
        (CardEffect::OnOwnPlacedGreenery(i1), CardEffect::OnOwnPlacedGreenery(i2)) => impact_equal(
            i1,
            i2,
        ),
        (CardEffect::OnOwnTagPlayed(t1, i1), CardEffect::OnOwnTagPlayed(t2, i2)) => t1 == t2
            && impact_equal(i1, i2),
        (
            CardEffect::OnOwnTagCombinationPlayed(ts1, is1),
            CardEffect::OnOwnTagCombinationPlayed(ts2, is2),
        ) => tags_equal(ts1, ts2) && impacts_equal(is1, is2),
        _ => false,
    };
    proof {
        if a.deep_view() == b.deep_view() {
            match (a, b) {
                (
                    CardEffect::CannotRemoveAnyCardResources(cs1),
                    CardEffect::CannotRemoveAnyCardResources(cs2),
                ) => {
                    assert(cs1.deep_view() == cs2.deep_view());
                    assert(cs1@.len() == cs2@.len());
                    assert forall|j: int| 0 <= j < cs1@.len() implies cs1@[j] == cs2@[j] by {
                        assert(cs1.deep_view()[j] == cs2.deep_view()[j]);
                    }
                    assert(cs1@ =~= cs2@);
                }
                (
                    CardEffect::OnOwnTagCombinationPlayed(ts1, is1),
                    CardEffect::OnOwnTagCombinationPlayed(ts2, is2),
                ) => {
                    assert(ts1.deep_view() == ts2.deep_view());
                    assert(ts1@.len() == ts2@.len());
                    assert forall|j: int| 0 <= j < ts1@.len() implies ts1@[j] == ts2@[j] by {
                        assert(ts1.deep_view()[j] == ts2.deep_view()[j]);
                    }
                    assert(ts1@ =~= ts2@);
                }
                _ => {}
            }
        }
    }
    r
}

/// True iff two effect lists have the same deep view.
pub fn effects_equal(a: &Vec<CardEffect>, b: &Vec<CardEffect>) -> (r: bool)
    ensures
        r == (a.deep_view() == b.deep_view()),
{
    if a.len() != b.len() {
        proof {
            assert(a.deep_view().len() != b.deep_view().len());
        }
        return false;
    }
    let n = a.len();
    for i in 0..n
        invariant
            n == a@.len(),
            n == b@.len(),
            forall|j: int| 0 <= j < i ==> a.deep_view()[j] == b.deep_view()[j],
    {
        if !effect_equal(&a[i], &b[i]) {
            proof {
                assert(a.deep_view()[i as int] == a@[i as int].deep_view());
                assert(b.deep_view()[i as int] == b@[i as int].deep_view());
                if a.deep_view() == b.deep_view() {
                    assert(a.deep_view()[i as int] == b.deep_view()[i as int]);
                }
            }
            return false;
        }
    }
    proof {
        assert(a.deep_view() =~= b.deep_view());
    }
    true
}

impl Card {
    /// True iff two cards have the same deep view.
    pub fn same_card(&self, other: &Card) -> (r: bool)
        ensures
            r == (self.deep_view() == other.deep_view()),
    {
        let names_equal = self.name == other.name;
        let r = names_equal && self.kind == other.kind && tags_equal(&self.tags, &other.tags)
            && self.cost == other.cost && requirements_equal(&self.requirements, &other.requirements)
            && self.points == other.points && production_entries_equal(
            &self.own_production,
            &other.own_production,
        ) && production_entries_equal(&self.any_production, &other.any_production) && impacts_equal(
            &self.immediate_impacts,
            &other.immediate_impacts,
        ) && actions_equal(&self.actions, &other.actions) && effects_equal(
            &self.effects,
            &other.effects,
        );
        proof {
            if r {
                assert(self.tags.deep_view() =~= other.tags.deep_view());
                assert(self.requirements.deep_view() =~= other.requirements.deep_view());
                assert(self.own_production.deep_view() =~= other.own_production.deep_view());
                assert(self.any_production.deep_view() =~= other.any_production.deep_view());
                assert(self.deep_view() == other.deep_view());
            } else {
                if self.deep_view() == other.deep_view() {
                    assert(self.name@ == other.name@);
                    assert(self.tags.deep_view() == other.tags.deep_view());
                    assert(self.requirements.deep_view() == other.requirements.deep_view());
                    assert(self.own_production.deep_view() == other.own_production.deep_view());
                    assert(self.any_production.deep_view() == other.any_production.deep_view());
                    assert(self.tags.deep_view().len() == self.tags@.len());
                    assert(other.tags.deep_view().len() == other.tags@.len());
                    assert(self.requirements.deep_view().len() == self.requirements@.len());
                    assert(other.requirements.deep_view().len() == other.requirements@.len());
                    assert(self.own_production.deep_view().len() == self.own_production@.len());
                    assert(other.own_production.deep_view().len() == other.own_production@.len());
                    assert(self.any_production.deep_view().len() == self.any_production@.len());
                    assert(other.any_production.deep_view().len() == other.any_production@.len());
                    assert(self.tags@.len() == other.tags@.len());
                    assert(self.requirements@.len() == other.requirements@.len());
                    assert(self.own_production@.len() == other.own_production@.len());
                    assert(self.any_production@.len() == other.any_production@.len());
                    assert forall|j: int| 0 <= j < self.tags@.len() implies self.tags@[j]
                        == other.tags@[j] by {
                        assert(self.tags.deep_view()[j] == other.tags.deep_view()[j]);
                    }
                    assert(self.tags@ =~= other.tags@);
                    assert forall|j: int| 0 <= j < self.requirements@.len() implies
                        self.requirements@[j] == other.requirements@[j] by {
                        assert(self.requirements.deep_view()[j] == other.requirements.deep_view()[j]);
                    }
                    assert(self.requirements@ =~= other.requirements@);
                    assert forall|j: int| 0 <= j < self.own_production@.len() implies
                        self.own_production@[j] == other.own_production@[j] by {
                        assert(self.own_production.deep_view()[j] == other.own_production.deep_view()[j]);
                    }
                    assert(self.own_production@ =~= other.own_production@);
                    assert forall|j: int| 0 <= j < self.any_production@.len() implies
                        self.any_production@[j] == other.any_production@[j] by {
                        assert(self.any_production.deep_view()[j] == other.any_production.deep_view()[j]);
                    }
                    assert(self.any_production@ =~= other.any_production@);
                    assert(false);
                }
            }
        }
        r
    }
}

/// Makes a copy of a card list with the same deep view.
pub fn dup_cards(v: &Vec<Card>) -> (r: Vec<Card>)
    ensures
        r.deep_view() == v.deep_view(),
{
    let mut r: Vec<Card> = Vec::new();
    let n = v.len();
    for i in 0..n
        invariant
            n == v@.len(),
            r.deep_view() == v.deep_view().subrange(0, i as int),
    {
        let d = v[i].duplicate();
        let ghost prev = r.deep_view();
        r.push(d);
        proof {
            assert(prev.len() == i as int);
            assert(r@.len() == i as int + 1);
            assert(r@[i as int] == d);
            assert forall|j: int| 0 <= j <= i implies
                r.deep_view()[j] == v.deep_view().subrange(0, i as int + 1)[j] by {
                if j < i {
                    assert(r.deep_view()[j] == prev[j]);
                } else {
                    assert(r@[j] == d);
                }
            }
            assert(r.deep_view() =~= v.deep_view().subrange(0, i as int + 1));
        }
    }
    proof {
        assert(r.deep_view() =~= v.deep_view());
    }
    r
}

} // verus!
