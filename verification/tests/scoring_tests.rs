use mars_engine::board::{make_base_game_board, Coordinates, EmptyLocation, TileLocation, TileStatus};
use mars_engine::resource::Resource;
use mars_engine::card::{Card, CardKind, CardTag, CityKind, ImmediateImpact, VictoryPointValue};
use mars_engine::game::{PlayerStateBuilder, DEFAULT_STARTING_TERRAFORM_RATING};
use mars_engine::resource::PaymentCost;

fn jovian_per_tag_card(name: &str) -> Card {
    Card::new(
        name.to_owned(),
        CardKind::Automatic,
        vec![CardTag::Jovian],
        PaymentCost::Megacredits(10),
        Vec::new(),
        Some(VictoryPointValue::PerTag(1, 1, CardTag::Jovian)),
        Vec::new(),
        Vec::new(),
        Vec::new(),
        Vec::new(),
        Vec::new(),
    )
}

fn immediate_points_card(name: &str, tags: Vec<CardTag>, points: isize) -> Card {
    Card::new(
        name.to_owned(),
        CardKind::Automatic,
        tags,
        PaymentCost::Megacredits(10),
        Vec::new(),
        Some(VictoryPointValue::Immediate(points)),
        Vec::new(),
        Vec::new(),
        Vec::new(),
        Vec::new(),
        Vec::new(),
    )
}

#[test]
fn test_victory_points_from_tags_count_own_card_tags() {
    // Three Jovian tags in play: the two per-tag cards score three each, and
    // the two immediate cards score two each, ten points from cards in all.
    let played_cards = vec![
        jovian_per_tag_card("Ganymede Colony"),
        jovian_per_tag_card("Water Import From Europa"),
        immediate_points_card("Methane From Titan", vec![CardTag::Jovian], 2),
        immediate_points_card("Tundra Farming", vec![CardTag::Plant], 2),
    ];

    let player_state = PlayerStateBuilder::new(1).with_played_cards(played_cards).build();
    let board = make_base_game_board();

    let points_from_cards: isize = 10;
    let expected_points = (DEFAULT_STARTING_TERRAFORM_RATING as isize) + points_from_cards;
    assert_eq!(expected_points, player_state.get_total_victory_points(&board));
}

#[test]
fn test_per_city_victory_points_count_all_player_cities_both_on_and_off_mars() {
    let p1_played_cards = vec![Card::new(
        "Immigration Shuttles".to_owned(),
        CardKind::Automatic,
        vec![CardTag::Earth, CardTag::Space],
        PaymentCost::Megacredits(31),
        Vec::new(),
        Some(VictoryPointValue::PerNCities(3)),
        Vec::new(),
        Vec::new(),
        Vec::new(),
        Vec::new(),
        Vec::new(),
    )];
    let p2_played_cards = vec![jovian_per_tag_card("Ganymede Colony")];

    let p1_player_state = PlayerStateBuilder::new(1).with_played_cards(p1_played_cards).build();
    let p2_player_state = PlayerStateBuilder::new(2).with_played_cards(p2_played_cards).build();

    let mut board = make_base_game_board();
    board.cities.push((
        TileLocation::OnMars(Coordinates::new(0, 0)),
        CityKind::RegularCity,
        p1_player_state.player_id,
    ));
    board.cities.push((
        TileLocation::OffMars(mars_engine::card::SpecialLocation::GanymedeColony),
        CityKind::GanymedeColony,
        p2_player_state.player_id,
    ));
    board.cities.push((
        TileLocation::OnMars(Coordinates::new(5, -3)),
        CityKind::RegularCity,
        p2_player_state.player_id,
    ));

    // One point from Immigration Shuttles because three cities exist.
    assert_eq!(
        1 + DEFAULT_STARTING_TERRAFORM_RATING as isize,
        p1_player_state.get_total_victory_points(&board)
    );

    // One point from Ganymede Colony's Jovian tag.
    assert_eq!(
        1 + DEFAULT_STARTING_TERRAFORM_RATING as isize,
        p2_player_state.get_total_victory_points(&board)
    );
}

#[test]
fn test_city_and_greneery_scoring() {
    let p1_player_state = PlayerStateBuilder::new(1).build();
    let p2_player_state = PlayerStateBuilder::new(2).build();

    let mut board = make_base_game_board();
    board.cities.push((
        TileLocation::OnMars(Coordinates::new(0, 0)),
        CityKind::RegularCity,
        p1_player_state.player_id,
    ));
    board.greeneries.push((Coordinates::new(1, 0), p1_player_state.player_id));
    board.greeneries.push((Coordinates::new(1, -1), p2_player_state.player_id));

    // One point for the greenery, two for the city adjacent to two greeneries.
    assert_eq!(
        3 + DEFAULT_STARTING_TERRAFORM_RATING as isize,
        p1_player_state.get_total_victory_points(&board)
    );

    // One point for the greenery.
    assert_eq!(
        1 + DEFAULT_STARTING_TERRAFORM_RATING as isize,
        p2_player_state.get_total_victory_points(&board)
    );
}

#[test]
fn test_capital_city_scoring() {
    let p1_played_cards = vec![Card::new(
        "Capital".to_owned(),
        CardKind::Automatic,
        vec![CardTag::City, CardTag::Building],
        PaymentCost::Building(26),
        Vec::new(),
        None,
        Vec::new(),
        Vec::new(),
        vec![ImmediateImpact::PlaceCity(CityKind::Capital, Vec::new())],
        Vec::new(),
        Vec::new(),
    )];

    let p1_player_state = PlayerStateBuilder::new(1).with_played_cards(p1_played_cards).build();
    let p2_player_state = PlayerStateBuilder::new(2).build();

    let mut board = make_base_game_board();
    board.cities.push((
        TileLocation::OnMars(Coordinates::new(4, -5)),
        CityKind::Capital,
        p1_player_state.player_id,
    ));
    board.greeneries.push((Coordinates::new(3, -5), p2_player_state.player_id));
    board.greeneries.push((Coordinates::new(4, -6), p2_player_state.player_id));
    board.oceans.push(Coordinates::new(5, -5));
    board.oceans.push(Coordinates::new(5, -6));
    board.oceans.push(Coordinates::new(4, -4));

    // Three points for the oceans around the capital, two for the adjacent
    // greeneries, whoever owns them.
    assert_eq!(
        5 + DEFAULT_STARTING_TERRAFORM_RATING as isize,
        p1_player_state.get_total_victory_points(&board)
    );

    // Two points for the greeneries.
    assert_eq!(
        2 + DEFAULT_STARTING_TERRAFORM_RATING as isize,
        p2_player_state.get_total_victory_points(&board)
    );
}

#[test]
fn capital_scores_nothing_when_other_player_owns_it() {
    let p1 = PlayerStateBuilder::new(1).build();
    let mut board = make_base_game_board();
    board.cities.push((
        TileLocation::OnMars(Coordinates::new(4, -5)),
        CityKind::Capital,
        mars_engine::game::PlayerId(2),
    ));
    board.oceans.push(Coordinates::new(5, -5));
    assert_eq!(
        DEFAULT_STARTING_TERRAFORM_RATING as isize,
        p1.get_total_victory_points(&board)
    );
}

#[test]
fn placement_rejected_next_to_other_tile_leaves_board_unchanged() {
    // A city placed under the isolation restriction next to an existing
    // greenery is refused, and the board is untouched.
    let mut board = make_base_game_board();
    let mut player = PlayerStateBuilder::new(1).build();
    board.greeneries.push((Coordinates::new(1, 0), player.player_id));
    let before = board.clone();

    let location = TileLocation::OnMars(Coordinates::new(0, 0));
    assert!(matches!(board.get_tile_status(&location), TileStatus::Empty(_)));
    let result = board.can_place_city(
        &mut player,
        EmptyLocation::from_location(location),
        CityKind::ResearchOutpost,
        &[mars_engine::card::LocationRestriction::NotNextToAnyOtherTile],
    );
    assert!(result.is_none());
    assert_eq!(before, board);
}

#[test]
fn placement_accepted_when_restrictions_hold() {
    let mut board = make_base_game_board();
    let mut player = PlayerStateBuilder::new(1).build();
    let location = TileLocation::OnMars(Coordinates::new(0, 0));
    let result = board.can_place_city(
        &mut player,
        EmptyLocation::from_location(location),
        CityKind::RegularCity,
        &[mars_engine::card::LocationRestriction::LandTile],
    );
    assert!(result.is_some());
    assert!(matches!(
        board.get_tile_status(&location),
        TileStatus::City(_, CityKind::RegularCity, _)
    ));
}

#[test]
fn placement_bonuses_coalesce_ocean_adjacency_megacredits() {
    let mut board = make_base_game_board();
    // Arsia Mons at the origin grants two plants; with one adjacent ocean the
    // two extra megacredits are appended as their own gain.
    board.oceans.push(Coordinates::new(1, 0));
    let bonuses = board.get_placement_bonuses(&EmptyLocation::from_location(
        TileLocation::OnMars(Coordinates::new(0, 0)),
    ));
    assert_eq!(
        vec![
            ImmediateImpact::GainResource(Resource::Plants, 2),
            ImmediateImpact::GainResource(Resource::Megacredits, 2),
        ],
        bonuses
    );

    // A plain land space with no bonus and no adjacent ocean still records
    // the zero megacredit adjacency gain.
    let bonuses = board.get_placement_bonuses(&EmptyLocation::from_location(
        TileLocation::OnMars(Coordinates::new(3, -1)),
    ));
    assert_eq!(vec![ImmediateImpact::GainResource(Resource::Megacredits, 0)], bonuses);
}

#[test]
fn neighbors_are_clockwise_and_clipped_to_the_board() {
    let origin = Coordinates::new(0, 0);
    assert!(origin.is_in_bounds());
    assert_eq!(0, origin.get_z());
    let neighbors = origin.neighbors_within_bounds();
    assert_eq!(
        vec![Coordinates::new(1, -1), Coordinates::new(0, -1), Coordinates::new(1, 0)],
        neighbors
    );

    let middle = Coordinates::new(4, -4);
    let neighbors = middle.neighbors_within_bounds();
    assert_eq!(6, neighbors.len());

    assert!(!Coordinates::new(5, 0).is_in_bounds());
    let off_board = TileLocation::OffMars(mars_engine::card::SpecialLocation::PhobosSpaceHaven);
    assert_eq!(0, off_board.neighbors_within_bounds().len());
}

#[test]
fn base_board_layout_holds_the_tharsis_spaces() {
    let board = make_base_game_board();
    assert_eq!("Tharsis", board.board_name);
    assert_eq!(63, board.spaces.len());

    // The two off-board spaces come first.
    assert_eq!(Some("Phobos Space Haven".to_owned()), board.spaces[0].name);
    assert_eq!(Some("Ganymede Colony".to_owned()), board.spaces[1].name);

    // Arsia Mons sits at the origin with its volcanic designation and its
    // two-plant bonus.
    let arsia = &board.spaces[2];
    assert_eq!(Some("Arsia Mons".to_owned()), arsia.name);
    assert_eq!(TileLocation::OnMars(Coordinates::new(0, 0)), arsia.location);
    assert!(arsia.is_land());
    assert_eq!(
        vec![ImmediateImpact::GainResource(Resource::Plants, 2)],
        arsia.placement_bonus
    );

    // Every space carries its own location, each exactly once.
    for i in 0..board.spaces.len() {
        for j in 0..i {
            assert_ne!(board.spaces[j].location, board.spaces[i].location);
        }
    }
}

#[test]
fn volcanic_city_placement_relies_on_the_special_designation() {
    let mut board = make_base_game_board();
    let mut player = PlayerStateBuilder::new(1).build();

    // The origin is a volcanic area, so a lava tunnel city may stand there.
    let volcanic = TileLocation::OnMars(Coordinates::new(0, 0));
    let result = board.can_place_city(
        &mut player,
        EmptyLocation::from_location(volcanic),
        CityKind::LavaTunnelCity,
        &[mars_engine::card::LocationRestriction::AtSpecialLocation(
            mars_engine::card::SpecialLocation::VolcanicArea,
        )],
    );
    assert!(result.is_some());

    // A plain land space is not volcanic, so the same placement is refused.
    let plain = TileLocation::OnMars(Coordinates::new(3, 0));
    let result = board.can_place_city(
        &mut player,
        EmptyLocation::from_location(plain),
        CityKind::LavaTunnelCity,
        &[mars_engine::card::LocationRestriction::AtSpecialLocation(
            mars_engine::card::SpecialLocation::VolcanicArea,
        )],
    );
    assert!(result.is_none());
}
