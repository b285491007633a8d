use mars_engine::board::{make_base_game_board, Coordinates, TileLocation, TileStatus};
use mars_engine::card::{Card, CardKind, CityKind, SpecialTile};
use mars_engine::engine::{Game, GameOperation};
use mars_engine::game::{PlayerId, PlayerStateBuilder};
use mars_engine::resource::{CardResource, PaymentCost, Resource};
use mars_engine::sim::get_possible_generation_plays;
use mars_engine::snapshot::{restore_game, snapshot_game};

fn plain_card(name: &str, cost: usize) -> Card {
    Card::new(
        name.to_owned(),
        CardKind::Automatic,
        Vec::new(),
        PaymentCost::Megacredits(cost),
        Vec::new(),
        None,
        Vec::new(),
        Vec::new(),
        Vec::new(),
        Vec::new(),
        Vec::new(),
    )
}

fn two_player_game() -> Game {
    Game {
        board: make_base_game_board(),
        players: vec![PlayerStateBuilder::new(1).build(), PlayerStateBuilder::new(2).build()],
        draw_deck: Vec::new(),
        discard_pile: Vec::new(),
    }
}

#[test]
fn deck_exhaustion_triggers_one_reshuffle_and_serves_the_full_draw() {
    // Two cards in the deck, three in the discard pile: drawing four forces
    // exactly one reshuffle and still yields the full requested count.
    let mut game = two_player_game();
    game.draw_deck = vec![plain_card("Solar Power", 11), plain_card("Nuclear Power", 10)];
    game.discard_pile = vec![
        plain_card("Fueled Generators", 1),
        plain_card("Power Plant", 4),
        plain_card("Geothermal Power", 11),
    ];

    game.execute_operation(GameOperation::DrawCards(PlayerId(1), 4));

    assert_eq!(4, game.players[0].cards_in_hand.len());
    assert_eq!(1, game.draw_deck.len());
    assert!(game.discard_pile.is_empty());
}

#[test]
fn drawing_within_the_deck_leaves_the_discard_pile_alone() {
    let mut game = two_player_game();
    game.draw_deck = vec![plain_card("Solar Power", 11), plain_card("Nuclear Power", 10)];
    game.discard_pile = vec![plain_card("Power Plant", 4)];

    game.execute_operation(GameOperation::DrawCards(PlayerId(2), 2));

    assert_eq!(2, game.players[1].cards_in_hand.len());
    assert!(game.draw_deck.is_empty());
    assert_eq!(1, game.discard_pile.len());
}

#[test]
fn operations_mutate_resources_production_and_the_board() {
    let mut game = two_player_game();

    game.execute_operation(GameOperation::ChangeResource(PlayerId(1), Resource::Plants, 8));
    assert_eq!(8, game.players[0].resources.plants);
    game.execute_operation(GameOperation::ChangeResource(PlayerId(1), Resource::Plants, -3));
    assert_eq!(5, game.players[0].resources.plants);

    game.execute_operation(GameOperation::ChangeProduction(PlayerId(1), Resource::Megacredits, -5));
    assert_eq!(-5, game.players[0].production.megacredits);

    game.execute_operation(GameOperation::RaiseTerraformRating(PlayerId(2), 2));
    assert_eq!(22, game.players[1].terraform_rating);

    game.execute_operation(GameOperation::RaiseTemperature);
    assert_eq!(-28, game.board.temperature);
    game.execute_operation(GameOperation::RaiseOxygen);
    assert_eq!(1, game.board.oxygen);

    game.execute_operation(GameOperation::PlaceOcean(Coordinates::new(5, -1)));
    game.execute_operation(GameOperation::PlaceGreenery(PlayerId(1), Coordinates::new(1, 0)));
    game.execute_operation(GameOperation::PlaceSpecialTile(
        PlayerId(2),
        Coordinates::new(2, -1),
        SpecialTile::NuclearZone,
    ));
    game.execute_operation(GameOperation::PlaceCityTile(
        PlayerId(1),
        TileLocation::OnMars(Coordinates::new(3, -1)),
        CityKind::RegularCity,
    ));

    assert!(matches!(
        game.board.get_tile_status(&TileLocation::OnMars(Coordinates::new(5, -1))),
        TileStatus::Ocean(_)
    ));
    assert!(matches!(
        game.board.get_tile_status(&TileLocation::OnMars(Coordinates::new(1, 0))),
        TileStatus::Greenery(_, _)
    ));
    assert!(matches!(
        game.board.get_tile_status(&TileLocation::OnMars(Coordinates::new(2, -1))),
        TileStatus::SpecialTile(_, SpecialTile::NuclearZone, _)
    ));
    assert!(matches!(
        game.board.get_tile_status(&TileLocation::OnMars(Coordinates::new(3, -1))),
        TileStatus::City(_, CityKind::RegularCity, _)
    ));
}

#[test]
fn card_resource_pools_and_tap_state_follow_their_operations() {
    let mut game = two_player_game();
    let mut filter_feeder = plain_card("Filter Feeders", 9);
    filter_feeder.immediate_impacts =
        vec![mars_engine::card::ImmediateImpact::AddResourceToSameCard(CardResource::Microbe, 1)];
    game.players[0].cards_in_hand.push(filter_feeder);

    game.execute_operation(GameOperation::PutCardIntoPlay(PlayerId(1), 0));
    assert_eq!(1, game.players[0].played_cards.len());
    assert!(game.players[0].cards_in_hand.is_empty());

    game.execute_operation(GameOperation::ChangeCardResource(PlayerId(1), 0, CardResource::Microbe, 3));
    assert_eq!(3, game.players[0].card_resource_amount(0, CardResource::Microbe));
    game.execute_operation(GameOperation::ChangeCardResource(PlayerId(1), 0, CardResource::Microbe, -1));
    assert_eq!(2, game.players[0].card_resource_amount(0, CardResource::Microbe));

    game.execute_operation(GameOperation::MarkCardActionUsed(PlayerId(1), 0));
    assert_eq!(vec![0], game.players[0].tapped_active_cards);
    game.execute_operation(GameOperation::MarkCardActionUsed(PlayerId(1), 0));
    assert_eq!(vec![0], game.players[0].tapped_active_cards);

    game.execute_operation(GameOperation::ResetCardActions);
    assert!(game.players[0].tapped_active_cards.is_empty());

    game.players[1].cards_in_hand.push(plain_card("Power Plant", 4));
    game.execute_operation(GameOperation::DiscardFromHand(PlayerId(2), 0));
    assert!(game.players[1].cards_in_hand.is_empty());
    assert_eq!(1, game.discard_pile.len());
}

#[test]
fn get_possible_plays_when_no_card_buys_or_plays_exist() {
    // With two megacredits nothing can be bought, and an empty hand leaves
    // nothing to play: the single result is the untouched pass.
    let player_state = PlayerStateBuilder::new(1).with_resources(2, 0, 0, 0, 0, 0).build();

    let offered_cards = vec![
        plain_card("Fueled Generators", 1),
        plain_card("Nuclear Power", 10),
        plain_card("Solar Power", 11),
        plain_card("GHG Factories", 11),
    ];

    let opponent_state = PlayerStateBuilder::new(2).build();
    let opponent_states = vec![&opponent_state];

    let actual_plays = get_possible_generation_plays(&player_state, &opponent_states, offered_cards);

    assert_eq!(1, actual_plays.len());
    assert!(actual_plays[0].0.is_empty());
    assert!(actual_plays[0].1.is_empty());
    assert_eq!(player_state, actual_plays[0].2);
}

#[test]
fn search_purchases_exactly_the_affordable_subsets() {
    // Six megacredits afford the empty set, both singletons and the pair:
    // four subsets, each contributing exactly its all-pass result since the
    // cards themselves are unaffordable to play afterwards.
    let player_state = PlayerStateBuilder::new(1).with_resources(6, 0, 0, 0, 0, 0).build();
    let offered_cards = vec![plain_card("Solar Power", 50), plain_card("Nuclear Power", 60)];
    let opponent_state = PlayerStateBuilder::new(2).build();
    let opponent_states = vec![&opponent_state];

    let plays = get_possible_generation_plays(&player_state, &opponent_states, offered_cards);

    assert_eq!(4, plays.len());
    let mut sizes: Vec<usize> = plays.iter().map(|entry| entry.0.len()).collect();
    sizes.sort();
    assert_eq!(vec![0, 1, 1, 2], sizes);
    for (purchased, turns, state) in &plays {
        assert!(turns.is_empty());
        assert_eq!(
            6 - 3 * purchased.len(),
            state.resources.megacredits,
        );
        assert_eq!(purchased.len(), state.cards_in_hand.len());
    }
}

#[test]
fn search_plays_affordable_cards_and_keeps_the_skip_branch() {
    // One offered card costing one megacredit: after buying it for three,
    // the player can play it or skip it, so the purchase contributes two
    // results next to the all-pass of the empty purchase.
    let player_state = PlayerStateBuilder::new(1).with_resources(4, 0, 0, 0, 0, 0).build();
    let offered_cards = vec![plain_card("Fueled Generators", 1)];
    let opponent_state = PlayerStateBuilder::new(2).build();
    let opponent_states = vec![&opponent_state];

    let plays = get_possible_generation_plays(&player_state, &opponent_states, offered_cards);

    assert_eq!(3, plays.len());
    let played_counts: Vec<usize> = plays.iter().map(|entry| entry.1.len()).collect();
    assert_eq!(1, played_counts.iter().filter(|&&c| c == 1).count());
    assert_eq!(2, played_counts.iter().filter(|&&c| c == 0).count());
}

#[test]
fn snapshot_and_restore_reproduce_the_game() {
    let catalog = vec![
        plain_card("Solar Power", 11),
        plain_card("Nuclear Power", 10),
        plain_card("Fueled Generators", 1),
    ];

    let mut game = two_player_game();
    game.draw_deck = vec![catalog[0].clone(), catalog[2].clone()];
    game.discard_pile = vec![catalog[1].clone()];
    game.players[0].cards_in_hand.push(catalog[2].clone());
    game.players[1].played_cards.push(catalog[0].clone());
    game.players[1].tapped_active_cards.push(0);
    game.execute_operation(GameOperation::PlaceGreenery(PlayerId(1), Coordinates::new(1, 0)));

    let snap = snapshot_game(&game, &catalog).expect("all cards are in the catalog");
    let restored = restore_game(&snap, &catalog).expect("all positions are in range");
    assert_eq!(game, restored);
}

#[test]
fn snapshot_fails_for_a_card_missing_from_the_catalog() {
    let catalog = vec![plain_card("Solar Power", 11)];
    let mut game = two_player_game();
    game.draw_deck = vec![plain_card("Nuclear Power", 10)];
    assert!(snapshot_game(&game, &catalog).is_none());
}

#[test]
fn restore_fails_for_a_position_outside_the_catalog() {
    let catalog = vec![plain_card("Solar Power", 11)];
    let mut game = two_player_game();
    game.draw_deck = vec![catalog[0].clone()];
    let mut snap = snapshot_game(&game, &catalog).expect("the card is in the catalog");
    snap.draw_deck[0] = 7;
    assert!(restore_game(&snap, &catalog).is_none());
}

#[test]
fn search_keeps_play_and_skip_outcomes_per_purchase() {
    // Two affordable, playable cards offered with twelve megacredits: every
    // purchase subset appears, and each contributes one outcome per
    // play-or-skip choice over the bought cards.
    let player_state = PlayerStateBuilder::new(1).with_resources(12, 0, 0, 0, 0, 0).build();
    let offered_cards = vec![plain_card("Solar Power", 1), plain_card("Nuclear Power", 2)];
    let opponent_state = PlayerStateBuilder::new(2).build();
    let opponent_states = vec![&opponent_state];

    let plays = get_possible_generation_plays(&player_state, &opponent_states, offered_cards);

    // Empty purchase: 1 outcome; each singleton: 2 outcomes; the pair: 4.
    assert_eq!(1 + 2 + 2 + 4, plays.len());
    let full_plays = plays
        .iter()
        .filter(|entry| entry.0.len() == 2 && entry.1.len() == 2)
        .count();
    assert_eq!(1, full_plays);
}
