use mars_engine::card::{Card, CardEffect, CardKind, CardRequirement, CardTag};
use mars_engine::game::{PlayerStateBuilder, DEFAULT_STARTING_TERRAFORM_RATING};
use mars_engine::resource::{PaymentCost, Resource};

fn plain_card(name: &str, cost: PaymentCost) -> Card {
    Card::new(
        name.to_owned(),
        CardKind::Automatic,
        Vec::new(),
        cost,
        Vec::new(),
        None,
        Vec::new(),
        Vec::new(),
        Vec::new(),
        Vec::new(),
        Vec::new(),
    )
}

#[test]
fn purchase_cards_debits_the_fixed_price_per_card() {
    let mut player = PlayerStateBuilder::new(1).with_resources(10, 0, 0, 0, 0, 0).build();
    let bought = vec![
        plain_card("Nuclear Power", PaymentCost::Megacredits(10)),
        plain_card("Solar Power", PaymentCost::Megacredits(11)),
    ];
    assert!(player.purchase_cards(bought).is_some());
    assert_eq!(4, player.resources.megacredits);
    assert_eq!(2, player.cards_in_hand.len());
}

#[test]
fn purchase_cards_fails_without_funds_and_changes_nothing() {
    let mut player = PlayerStateBuilder::new(1).with_resources(2, 0, 0, 0, 0, 0).build();
    let before = player.clone();
    let bought = vec![plain_card("Nuclear Power", PaymentCost::Megacredits(10))];
    assert!(player.purchase_cards(bought).is_none());
    assert_eq!(before, player);
}

#[test]
fn generation_advance_converts_energy_and_applies_production() {
    let mut player = PlayerStateBuilder::new(1)
        .with_resources(3, 0, 0, 1, 5, 2)
        .with_production(-2, 1, 0, 2, 1, 0)
        .build();
    player.advance_generation();

    // Megacredits grow by the terraform rating and the production delta.
    assert_eq!(3 + DEFAULT_STARTING_TERRAFORM_RATING - 2, player.resources.megacredits);
    assert_eq!(1, player.resources.steel);
    assert_eq!(0, player.resources.titanium);
    assert_eq!(3, player.resources.plants);
    // All energy became heat before production refilled it.
    assert_eq!(1, player.resources.energy);
    assert_eq!(2 + 5, player.resources.heat);
    assert_eq!(0, player.tapped_active_cards.len());
}

#[test]
fn generation_advance_clears_tap_state_and_zeroes_energy() {
    let mut player = PlayerStateBuilder::new(1)
        .with_resources(0, 0, 0, 0, 9, 0)
        .build();
    player.played_cards.push(plain_card("Research Outpost", PaymentCost::Megacredits(18)));
    player.tapped_active_cards.push(0);
    player.advance_generation();
    assert_eq!(0, player.resources.energy);
    assert_eq!(9, player.resources.heat);
    assert!(player.tapped_active_cards.is_empty());
}

#[test]
fn can_play_card_checks_requirements_then_affordability() {
    let board = mars_engine::board::make_base_game_board();

    let needs_oxygen = Card::new(
        "GHG Factories".to_owned(),
        CardKind::Automatic,
        Vec::new(),
        PaymentCost::Megacredits(1),
        vec![CardRequirement::MinOxygen(4)],
        None,
        Vec::new(),
        Vec::new(),
        Vec::new(),
        Vec::new(),
        Vec::new(),
    );
    let affordable = plain_card("Solar Power", PaymentCost::Megacredits(5));
    let expensive = plain_card("Fusion Power", PaymentCost::Megacredits(50));

    let mut builder = PlayerStateBuilder::new(1).with_resources(20, 0, 0, 0, 0, 0);
    builder.cards_in_hand = Some(vec![needs_oxygen, affordable, expensive]);
    let player = builder.build();

    // The base board has no oxygen yet, so the requirement fails.
    assert!(player.can_play_card(&board, 0).is_none());
    assert_eq!(Some(PaymentCost::Megacredits(5)), player.can_play_card(&board, 1));
    assert!(player.can_play_card(&board, 2).is_none());
}

#[test]
fn play_card_pays_with_megacredits_then_steel() {
    let building = Card::new(
        "Noctis City".to_owned(),
        CardKind::Automatic,
        vec![CardTag::Building],
        PaymentCost::Building(18),
        Vec::new(),
        None,
        Vec::new(),
        Vec::new(),
        Vec::new(),
        Vec::new(),
        Vec::new(),
    );
    let mut builder = PlayerStateBuilder::new(1).with_resources(10, 7, 0, 0, 0, 0);
    builder.cards_in_hand = Some(vec![building]);
    let mut player = builder.build();

    // Ten megacredits cover part of the cost; the remaining eight take four
    // steel at the base conversion value of two.
    assert_eq!(Some(PaymentCost::Building(18)), player.play_card(0));
    assert_eq!(0, player.resources.megacredits);
    assert_eq!(3, player.resources.steel);
    assert_eq!(0, player.cards_in_hand.len());
    assert_eq!(1, player.played_cards.len());
}

#[test]
fn play_card_applies_production_and_rejects_floor_violations() {
    let mut gains_production = plain_card("Fueled Generators", PaymentCost::Megacredits(1));
    gains_production.own_production = vec![(Resource::Megacredits, -1), (Resource::Energy, 1)];

    let mut impossible = plain_card("Energy Saving", PaymentCost::Megacredits(1));
    impossible.own_production = vec![(Resource::Energy, -1)];

    let mut builder = PlayerStateBuilder::new(1).with_resources(10, 0, 0, 0, 0, 0);
    builder.cards_in_hand = Some(vec![gains_production, impossible]);
    let mut player = builder.build();
    let before = player.clone();

    // Energy production would drop below zero: rejected without mutation.
    assert!(player.play_card(1).is_none());
    assert_eq!(before, player);

    assert!(player.play_card(0).is_some());
    assert_eq!(-1, player.production.megacredits);
    assert_eq!(1, player.production.energy);
}

#[test]
fn playing_a_card_with_increased_metals_value_raises_both_conversions() {
    let mut advanced_alloys = plain_card("Advanced Alloys", PaymentCost::Megacredits(9));
    advanced_alloys.effects = vec![CardEffect::IncreasedMetalsValue(1)];

    let mut builder = PlayerStateBuilder::new(1).with_resources(9, 0, 0, 0, 0, 0);
    builder.cards_in_hand = Some(vec![advanced_alloys]);
    let mut player = builder.build();
    assert_eq!(2, player.steel_value);
    assert_eq!(3, player.titanium_value);

    assert!(player.play_card(0).is_some());
    assert_eq!(3, player.steel_value);
    assert_eq!(4, player.titanium_value);
    assert_eq!(1, player.effects.len());
}

#[test]
fn builder_derives_effects_and_metal_values_from_played_cards() {
    let mut alloys = plain_card("Advanced Alloys", PaymentCost::Megacredits(9));
    alloys.effects = vec![CardEffect::IncreasedMetalsValue(2)];
    let player = PlayerStateBuilder::new(7).with_played_cards(vec![alloys]).build();
    assert_eq!(4, player.steel_value);
    assert_eq!(5, player.titanium_value);
    assert_eq!(1, player.effects.len());
    assert_eq!(DEFAULT_STARTING_TERRAFORM_RATING, player.terraform_rating);
    assert_eq!(0, player.resources.megacredits);
}

#[test]
fn active_tag_counting_skips_events_and_honors_wild_tags() {
    let mut event = plain_card("Red Spot Observatory", PaymentCost::Megacredits(17));
    event.kind = CardKind::Event;
    event.tags = vec![CardTag::Event, CardTag::Jovian];

    let mut wild = plain_card("Celestior", PaymentCost::Megacredits(10));
    wild.tags = vec![CardTag::Wild];

    let mut jovian = plain_card("Io Mining Industries", PaymentCost::Megacredits(41));
    jovian.tags = vec![CardTag::Jovian, CardTag::Space];

    let player = PlayerStateBuilder::new(1)
        .with_played_cards(vec![event, wild, jovian])
        .build();

    // The event's Jovian tag is not in play; the wild tag only counts for
    // action eligibility.
    assert_eq!(1, player.active_tag_count(CardTag::Jovian));
    assert_eq!(2, player.active_tag_count_for_action(CardTag::Jovian));
    assert_eq!(1, player.played_event_count());
    assert_eq!(3, player.get_played_non_event_tags().len());
}
