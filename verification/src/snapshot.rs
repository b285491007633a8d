//! State snapshots: a game flattened into a structured value whose card
//! references are positions in an external catalog, restorable against the
//! same catalog with full fidelity.
use vstd::prelude::*;

use crate::board::{dup_board, MarsBoard, MarsBoardView};
use crate::card::{dup_effects, Card, CardEffect, CardView};
use crate::engine::Game;
use crate::game::{CardResourceEntry, PlayerId, PlayerState, PlayerStateView};
use crate::resource::{ProductionLevels, ResourceBank};

verus! {

/// One player flattened for persistence: cards are catalog positions.
pub struct PlayerSnapshot {
    pub player_id: PlayerId,
    pub resources: ResourceBank,
    pub production: ProductionLevels,
    pub played_cards: Vec<usize>,
    pub card_resources: Vec<CardResourceEntry>,
    pub tapped_active_cards: Vec<usize>,
    pub cards_in_hand: Vec<usize>,
    pub terraform_rating: usize,
    pub steel_value: usize,
    pub titanium_value: usize,
    pub effects: Vec<CardEffect>,
}

/// A whole game flattened for persistence.
pub struct GameSnapshot {
    pub board: MarsBoard,
    pub players: Vec<PlayerSnapshot>,
    pub draw_deck: Vec<usize>,
    pub discard_pile: Vec<usize>,
}

/// The specification-level mirror of [`Game`].
pub struct GameView {
    pub board: MarsBoardView,
    pub players: Seq<PlayerStateView>,
    pub draw_deck: Seq<CardView>,
    pub discard_pile: Seq<CardView>,
}

impl DeepView for Game {
    type V = GameView;

    open spec fn deep_view(&self) -> GameView {
        GameView {
            board: self.board.deep_view(),
            players: self.players.deep_view(),
            draw_deck: self.draw_deck.deep_view(),
            discard_pile: self.discard_pile.deep_view(),
        }
    }
}

/// Whether a card occurs in the catalog.
pub open spec fn card_in_catalog(cv: CardView, catalog: Seq<CardView>) -> bool {
    exists|j: int| 0 <= j < catalog.len() && catalog[j] == cv
}

/// Whether every card in the list occurs in the catalog.
pub open spec fn cards_in_catalog(cards: Seq<CardView>, catalog: Seq<CardView>) -> bool {
    forall|k: int| 0 <= k < cards.len() ==> card_in_catalog(#[trigger] cards[k], catalog)
}

/// Whether the positions resolve, entry for entry, to the cards.
pub open spec fn indexes_describe(
    idxs: Seq<usize>,
    cards: Seq<CardView>,
    catalog: Seq<CardView>,
) -> bool {
    &&& idxs.len() == cards.len()
    &&& forall|k: int| 0 <= k < idxs.len() ==> (#[trigger] idxs[k]) < catalog.len()
        && catalog[idxs[k] as int] == cards[k]
}

/// The first catalog position holding the card.
pub fn index_of_card(catalog: &Vec<Card>, card: &Card) -> (r: Option<usize>)
    ensures
        match r {
            Some(i) => i < catalog@.len() && catalog.deep_view()[i as int] == card.deep_view(),
            None => !card_in_catalog(card.deep_view(), catalog.deep_view()),
        },
{
    let n = catalog.len();
    for i in 0..n
        invariant
            n == catalog@.len(),
            forall|j: int| 0 <= j < i ==> catalog.deep_view()[j] != card.deep_view(),
    {
        if catalog[i].same_card(card) {
            proof {
                assert(catalog.deep_view()[i as int] == catalog@[i as int].deep_view());
            }
            return Some(i);
        }
        proof {
            assert(catalog.deep_view()[i as int] == catalog@[i as int].deep_view());
        }
    }
    None
}

/// Replaces each card with its first catalog position; fails iff some card
/// is not in the catalog.
pub fn encode_card_list(catalog: &Vec<Card>, cards: &Vec<Card>) -> (r: Option<Vec<usize>>)
    ensures
        match r {
            Some(v) => indexes_describe(v@, cards.deep_view(), catalog.deep_view()),
            None => !cards_in_catalog(cards.deep_view(), catalog.deep_view()),
        },
        (r is Some) == cards_in_catalog(cards.deep_view(), catalog.deep_view()),
{
    let mut v: Vec<usize> = Vec::new();
    let n = cards.len();
    for k in 0..n
        invariant
            n == cards@.len(),
            v@.len() == k,
            forall|j: int| 0 <= j < k ==> (#[trigger] v@[j]) < catalog.deep_view().len()
                && catalog.deep_view()[v@[j] as int] == cards.deep_view()[j],
    {
        match index_of_card(catalog, &cards[k]) {
            Some(i) => {
                v.push(i);
                proof {
                    assert(cards.deep_view()[k as int] == cards@[k as int].deep_view());
                }
            }
            None => {
                proof {
                    assert(cards.deep_view()[k as int] == cards@[k as int].deep_view());
                    assert(!card_in_catalog(cards.deep_view()[k as int], catalog.deep_view()));
                }
                return None;
            }
        }
    }
    proof {
        assert forall|k: int| 0 <= k < cards.deep_view().len() implies card_in_catalog(
            #[trigger] cards.deep_view()[k],
            catalog.deep_view(),
        ) by {
            assert(catalog.deep_view()[v@[k] as int] == cards.deep_view()[k]);
        }
    }
    Some(v)
}

/// Resolves catalog positions back into cards; fails iff some position is
/// out of the catalog's range.
pub fn decode_card_list(catalog: &Vec<Card>, idxs: &Vec<usize>) -> (r: Option<Vec<Card>>)
    ensures
        match r {
            Some(cs) => cs@.len() == idxs@.len() && forall|k: int| 0 <= k < idxs@.len()
                ==> (#[trigger] idxs@[k]) < catalog@.len() && cs.deep_view()[k]
                    == catalog.deep_view()[idxs@[k] as int],
            None => exists|k: int| 0 <= k < idxs@.len() && (#[trigger] idxs@[k]) >= catalog@.len(),
        },
{
    let mut cs: Vec<Card> = Vec::new();
    let n = idxs.len();
    for k in 0..n
        invariant
            n == idxs@.len(),
            cs@.len() == k,
            forall|j: int| 0 <= j < k ==> (#[trigger] idxs@[j]) < catalog@.len()
                && cs.deep_view()[j] == catalog.deep_view()[idxs@[j] as int],
    {
        let i = idxs[k];
        if i >= catalog.len() {
            return None;
        }
        let ghost prev = cs.deep_view();
        let card = catalog[i].duplicate();
        cs.push(card);
        proof {
            assert(cs@[k as int] == card);
            assert(catalog.deep_view()[i as int] == catalog@[i as int].deep_view());
            assert forall|j: int| 0 <= j <= k implies (#[trigger] idxs@[j]) < catalog@.len()
                && cs.deep_view()[j] == catalog.deep_view()[idxs@[j] as int] by {
                if j < k {
                    assert(cs.deep_view()[j] == prev[j]);
                }
            }
        }
    }
    Some(cs)
}

/// Whether a player snapshot describes a player relative to the catalog.
pub open spec fn player_snapshot_describes(
    p: PlayerStateView,
    catalog: Seq<CardView>,
    ps: PlayerSnapshot,
) -> bool {
    &&& ps.player_id == p.player_id
    &&& ps.resources == p.resources
    &&& ps.production == p.production
    &&& indexes_describe(ps.played_cards@, p.played_cards, catalog)
    &&& ps.card_resources@ == p.card_resources
    &&& ps.tapped_active_cards@ == p.tapped_active_cards
    &&& indexes_describe(ps.cards_in_hand@, p.cards_in_hand, catalog)
    &&& ps.terraform_rating == p.terraform_rating
    &&& ps.steel_value == p.steel_value
    &&& ps.titanium_value == p.titanium_value
    &&& ps.effects.deep_view() == p.effects
}

/// Whether a game snapshot describes a game relative to the catalog.
pub open spec fn game_snapshot_describes(
    g: GameView,
    catalog: Seq<CardView>,
    snap: GameSnapshot,
) -> bool {
    &&& snap.board.deep_view() == g.board
    &&& snap.players@.len() == g.players.len()
    &&& forall|i: int| 0 <= i < g.players.len() ==> player_snapshot_describes(
        g.players[i],
        catalog,
        #[trigger] snap.players@[i],
    )
    &&& indexes_describe(snap.draw_deck@, g.draw_deck, catalog)
    &&& indexes_describe(snap.discard_pile@, g.discard_pile, catalog)
}

/// Whether every card referenced anywhere in the game occurs in the catalog.
pub open spec fn game_cards_in_catalog(g: GameView, catalog: Seq<CardView>) -> bool {
    &&& cards_in_catalog(g.draw_deck, catalog)
    &&& cards_in_catalog(g.discard_pile, catalog)
    &&& forall|i: int| 0 <= i < g.players.len() ==> cards_in_catalog(
        (#[trigger] g.players[i]).played_cards,
        catalog,
    ) && cards_in_catalog(g.players[i].cards_in_hand, catalog)
}

/// Flattens one player; fails iff some card is missing from the catalog.
fn snapshot_player(p: &PlayerState, catalog: &Vec<Card>) -> (r: Option<PlayerSnapshot>)
    ensures
        match r {
            Some(ps) => player_snapshot_describes(p.deep_view(), catalog.deep_view(), ps),
            None => !(cards_in_catalog(p.played_cards.deep_view(), catalog.deep_view())
                && cards_in_catalog(p.cards_in_hand.deep_view(), catalog.deep_view())),
        },
        (r is Some) == (cards_in_catalog(p.played_cards.deep_view(), catalog.deep_view())
            && cards_in_catalog(p.cards_in_hand.deep_view(), catalog.deep_view())),
{
    let played = match encode_card_list(catalog, &p.played_cards) {
        Some(v) => v,
        None => {
            return None;
        }
    };
    let hand = match encode_card_list(catalog, &p.cards_in_hand) {
        Some(v) => v,
        None => {
            return None;
        }
    };
    let ps = PlayerSnapshot {
        player_id: p.player_id,
        resources: p.resources,
        production: p.production,
        played_cards: played,
        card_resources: crate::card::dup_copy_vec(&p.card_resources),
        tapped_active_cards: crate::card::dup_copy_vec(&p.tapped_active_cards),
        cards_in_hand: hand,
        terraform_rating: p.terraform_rating,
        steel_value: p.steel_value,
        titanium_value: p.titanium_value,
        effects: dup_effects(&p.effects),
    };
    proof {
        assert(ps.card_resources@ =~= p.deep_view().card_resources);
        assert(ps.tapped_active_cards@ =~= p.deep_view().tapped_active_cards);
    }
    Some(ps)
}

/// Flattens a game into a snapshot relative to the catalog; fails iff some
/// card anywhere in the game is missing from the catalog.
pub fn snapshot_game(g: &Game, catalog: &Vec<Card>) -> (r: Option<GameSnapshot>)
    ensures
        match r {
            Some(snap) => game_snapshot_describes(g.deep_view(), catalog.deep_view(), snap),
            None => !game_cards_in_catalog(g.deep_view(), catalog.deep_view()),
        },
        (r is Some) == game_cards_in_catalog(g.deep_view(), catalog.deep_view()),
{
    let deck = match encode_card_list(catalog, &g.draw_deck) {
        Some(v) => v,
        None => {
            return None;
        }
    };
    let discard = match encode_card_list(catalog, &g.discard_pile) {
        Some(v) => v,
        None => {
            return None;
        }
    };
    let mut players: Vec<PlayerSnapshot> = Vec::new();
    let n = g.players.len();
    for i in 0..n
        invariant
            n == g.players@.len(),
            players@.len() == i,
            forall|j: int| 0 <= j < i ==> player_snapshot_describes(
                g.players.deep_view()[j],
                catalog.deep_view(),
                #[trigger] players@[j],
            ),
    {
        proof {
            assert(g.players.deep_view()[i as int] == g.players@[i as int].deep_view());
        }
        match snapshot_player(&g.players[i], catalog) {
            Some(ps) => {
                players.push(ps);
            }
            None => {
                proof {
                    assert(g.deep_view().players[i as int] == g.players@[i as int].deep_view());
                }
                return None;
            }
        }
    }
    proof {
        assert forall|i: int| 0 <= i < g.deep_view().players.len() implies cards_in_catalog(
            (#[trigger] g.deep_view().players[i]).played_cards,
            catalog.deep_view(),
        ) && cards_in_catalog(g.deep_view().players[i].cards_in_hand, catalog.deep_view()) by {
            assert(player_snapshot_describes(
                g.players.deep_view()[i],
                catalog.deep_view(),
                players@[i],
            ));
            let ps = players@[i];
            assert forall|k: int| 0 <= k < g.deep_view().players[i].played_cards.len() implies
                card_in_catalog(
                    #[trigger] g.deep_view().players[i].played_cards[k],
                    catalog.deep_view(),
                ) by {
                assert(catalog.deep_view()[ps.played_cards@[k] as int]
                    == g.deep_view().players[i].played_cards[k]);
            }
            assert forall|k: int| 0 <= k < g.deep_view().players[i].cards_in_hand.len() implies
                card_in_catalog(
                    #[trigger] g.deep_view().players[i].cards_in_hand[k],
                    catalog.deep_view(),
                ) by {
                assert(catalog.deep_view()[ps.cards_in_hand@[k] as int]
                    == g.deep_view().players[i].cards_in_hand[k]);
            }
        }
    }
    Some(GameSnapshot { board: dup_board(&g.board), players, draw_deck: deck, discard_pile: discard })
}

/// Whether every stored position of one player snapshot lies below the
/// catalog length.
pub open spec fn player_positions_in_range(ps: PlayerSnapshot, catalog_len: int) -> bool {
    &&& forall|k: int| 0 <= k < ps.played_cards@.len() ==> (#[trigger] ps.played_cards@[k])
        < catalog_len
    &&& forall|k: int| 0 <= k < ps.cards_in_hand@.len() ==> (#[trigger] ps.cards_in_hand@[k])
        < catalog_len
}

/// Whether every stored position anywhere in the snapshot lies below the
/// catalog length.
pub open spec fn snapshot_positions_in_range(snap: GameSnapshot, catalog_len: int) -> bool {
    &&& forall|k: int| 0 <= k < snap.draw_deck@.len() ==> (#[trigger] snap.draw_deck@[k])
        < catalog_len
    &&& forall|k: int| 0 <= k < snap.discard_pile@.len() ==> (#[trigger] snap.discard_pile@[k])
        < catalog_len
    &&& forall|i: int| 0 <= i < snap.players@.len() ==> player_positions_in_range(
        #[trigger] snap.players@[i],
        catalog_len,
    )
}

/// Rebuilds a game from a snapshot against the catalog; fails iff some
/// position is out of the catalog's range.
pub fn restore_game(snap: &GameSnapshot, catalog: &Vec<Card>) -> (r: Option<Game>)
    ensures
        r matches Some(g2) ==> game_snapshot_describes(g2.deep_view(), catalog.deep_view(), *snap),
        (r is Some) == snapshot_positions_in_range(*snap, catalog@.len() as int),
{
    let deck = match decode_card_list(catalog, &snap.draw_deck) {
        Some(v) => v,
        None => {
            return None;
        }
    };
    let discard = match decode_card_list(catalog, &snap.discard_pile) {
        Some(v) => v,
        None => {
            return None;
        }
    };
    let mut players: Vec<PlayerState> = Vec::new();
    let n = snap.players.len();
    for i in 0..n
        invariant
            n == snap.players@.len(),
            players@.len() == i,
            forall|j: int| 0 <= j < i ==> player_snapshot_describes(
                players.deep_view()[j],
                catalog.deep_view(),
                #[trigger] snap.players@[j],
            ),
            forall|j: int| 0 <= j < i ==> player_positions_in_range(
                #[trigger] snap.players@[j],
                catalog@.len() as int,
            ),
    {
        let ps = &snap.players[i];
        let played = match decode_card_list(catalog, &ps.played_cards) {
            Some(v) => v,
            None => {
                proof {
                    assert(!player_positions_in_range(snap.players@[i as int], catalog@.len() as int));
                }
                return None;
            }
        };
        let hand = match decode_card_list(catalog, &ps.cards_in_hand) {
            Some(v) => v,
            None => {
                proof {
                    assert(!player_positions_in_range(snap.players@[i as int], catalog@.len() as int));
                }
                return None;
            }
        };
        proof {
            assert(player_positions_in_range(snap.players@[i as int], catalog@.len() as int));
        }
        let ghost prev = players.deep_view();
        let rebuilt = PlayerState {
            player_id: ps.player_id,
            resources: ps.resources,
            production: ps.production,
            played_cards: played,
            card_resources: crate::card::dup_copy_vec(&ps.card_resources),
            tapped_active_cards: crate::card::dup_copy_vec(&ps.tapped_active_cards),
            cards_in_hand: hand,
            terraform_rating: ps.terraform_rating,
            steel_value: ps.steel_value,
            titanium_value: ps.titanium_value,
            effects: dup_effects(&ps.effects),
        };
        proof {
            assert(rebuilt.deep_view().card_resources =~= ps.card_resources@);
            assert(rebuilt.deep_view().tapped_active_cards =~= ps.tapped_active_cards@);
            assert(indexes_describe(
                ps.played_cards@,
                rebuilt.played_cards.deep_view(),
                catalog.deep_view(),
            ));
            assert(indexes_describe(
                ps.cards_in_hand@,
                rebuilt.cards_in_hand.deep_view(),
                catalog.deep_view(),
            ));
        }
        players.push(rebuilt);
        proof {
            assert(players@[i as int] == rebuilt);
            assert forall|j: int| 0 <= j <= i implies player_snapshot_describes(
                players.deep_view()[j],
                catalog.deep_view(),
                #[trigger] snap.players@[j],
            ) by {
                if j < i {
                    assert(players.deep_view()[j] == prev[j]);
                } else {
                    assert(players.deep_view()[j] == rebuilt.deep_view());
                }
            }
        }
    }
    let g2 = Game { board: dup_board(&snap.board), players, draw_deck: deck, discard_pile: discard };
    proof {
        assert(g2.deep_view().players.len() == snap.players@.len());
        assert forall|i: int| 0 <= i < g2.deep_view().players.len() implies
            player_snapshot_describes(
                g2.deep_view().players[i],
                catalog.deep_view(),
                #[trigger] snap.players@[i],
            ) by {
            assert(g2.deep_view().players[i] == players.deep_view()[i]);
        }
    }
    Some(g2)
}

/// The round-trip law: a snapshot taken against a catalog and restored
/// against the same catalog yields a game structurally equal to the
/// original.
pub proof fn lemma_snapshot_round_trip(
    g: GameView,
    catalog: Seq<CardView>,
    snap: GameSnapshot,
    g2: GameView,
)
    requires
        game_snapshot_describes(g, catalog, snap),
        game_snapshot_describes(g2, catalog, snap),
    ensures
        g2.board == g.board,
        g2.draw_deck == g.draw_deck,
        g2.discard_pile == g.discard_pile,
        g2.players.len() == g.players.len(),
        forall|i: int| 0 <= i < g.players.len() ==> players_structurally_equal(
            #[trigger] g2.players[i],
            g.players[i],
        ),
{
    assert forall|k: int| 0 <= k < g.draw_deck.len() implies g2.draw_deck[k] == g.draw_deck[k] by {
        assert(catalog[snap.draw_deck@[k] as int] == g.draw_deck[k]);
        assert(catalog[snap.draw_deck@[k] as int] == g2.draw_deck[k]);
    }
    assert(g2.draw_deck =~= g.draw_deck);
    assert forall|k: int| 0 <= k < g.discard_pile.len() implies g2.discard_pile[k]
        == g.discard_pile[k] by {
        assert(catalog[snap.discard_pile@[k] as int] == g.discard_pile[k]);
        assert(catalog[snap.discard_pile@[k] as int] == g2.discard_pile[k]);
    }
    assert(g2.discard_pile =~= g.discard_pile);
    assert forall|i: int| 0 <= i < g.players.len() implies players_structurally_equal(
        #[trigger] g2.players[i],
        g.players[i],
    ) by {
        let ps = snap.players@[i];
        let a = g2.players[i];
        let b = g.players[i];
        assert(player_snapshot_describes(a, catalog, ps));
        assert(player_snapshot_describes(b, catalog, ps));
        assert forall|k: int| 0 <= k < b.played_cards.len() implies a.played_cards[k]
            == b.played_cards[k] by {
            assert(catalog[ps.played_cards@[k] as int] == b.played_cards[k]);
            assert(catalog[ps.played_cards@[k] as int] == a.played_cards[k]);
        }
        assert(a.played_cards =~= b.played_cards);
        assert forall|k: int| 0 <= k < b.cards_in_hand.len() implies a.cards_in_hand[k]
            == b.cards_in_hand[k] by {
            assert(catalog[ps.cards_in_hand@[k] as int] == b.cards_in_hand[k]);
            assert(catalog[ps.cards_in_hand@[k] as int] == a.cards_in_hand[k]);
        }
        assert(a.cards_in_hand =~= b.cards_in_hand);
    }
}

/// Structural equality of player views, field for field.
pub open spec fn players_structurally_equal(a: PlayerStateView, b: PlayerStateView) -> bool {
    &&& a.player_id == b.player_id
    &&& a.resources == b.resources
    &&& a.production == b.production
    &&& a.played_cards == b.played_cards
    &&& a.card_resources == b.card_resources
    &&& a.tapped_active_cards == b.tapped_active_cards
    &&& a.cards_in_hand == b.cards_in_hand
    &&& a.terraform_rating == b.terraform_rating
    &&& a.steel_value == b.steel_value
    &&& a.titanium_value == b.titanium_value
    &&& a.effects == b.effects
}

} // verus!