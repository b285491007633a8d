//! The generation search: every subset of the offered cards a player could
//! purchase, and for each affordable purchase, the play-or-skip combinations
//! over the resulting hand.
use vstd::prelude::*;

use crate::card::{dup_cards, Card, CardView};
use crate::game::{
    card_cost_payable, card_requirements_queryable, dup_turn_action, metals_increase,
    spec_apply_production, spec_pay, spec_payable_cost_class, spec_requirements_queryable, PlayerState, PlayerStateView, TurnAction, TurnActionView,
    CARD_PURCHASE_COST,
};
use crate::resource::Resource;

verus! {

/// The most cards that may be offered to the search in one generation.
pub const MAX_OFFERED_CARDS: usize = 10;

/// The cards selected from an offer by a boolean choice vector of the same
/// length, in offer order.
pub open spec fn chosen_cards(offered: Seq<CardView>, pick: Seq<bool>) -> Seq<CardView>
    decreases offered.len(),
{
    if offered.len() == 0 {
        Seq::empty()
    } else {
        (if pick[0] {
            seq![offered[0]]
        } else {
            Seq::<CardView>::empty()
        }) + chosen_cards(offered.skip(1), pick.skip(1))
    }
}

/// Whether a purchase list is one of the selections of the offer.
pub open spec fn is_selection_of(offered: Seq<CardView>, sel: Seq<CardView>) -> bool {
    exists|pick: Seq<bool>| pick.len() == offered.len() && sel == #[trigger] chosen_cards(
        offered,
        pick,
    )
}

/// Whether some entry's deep view is the given selection.
pub open spec fn holds_selection(rs: Seq<Vec<Card>>, sel: Seq<CardView>) -> bool {
    exists|j: int| 0 <= j && j < rs.len() && (#[trigger] rs[j]).deep_view() == sel
}

/// Whether the entry list holds a selection for every choice vector over
/// the offer.
pub open spec fn all_picks_covered(offered_suffix: Seq<CardView>, rs: Seq<Vec<Card>>) -> bool {
    forall|pick: Seq<bool>|
        #![trigger chosen_cards(offered_suffix, pick)]
        pick.len() == offered_suffix.len() ==> holds_selection(
            rs,
            chosen_cards(offered_suffix, pick),
        )
}

/// The state after purchasing a list of cards: the fixed price per card
/// leaves the megacredit balance, and the cards join the hand.
pub open spec fn spec_after_purchase(p: PlayerStateView, cards: Seq<CardView>) -> PlayerStateView {
    PlayerStateView {
        resources: p.resources.spec_with(
            Resource::Megacredits,
            (p.resources.megacredits - CARD_PURCHASE_COST * cards.len()) as usize,
        ),
        cards_in_hand: p.cards_in_hand + cards,
        ..p
    }
}

/// For each way to select from the rest of the offer, the selection without
/// the head card followed by the selection with it.
pub open spec fn spec_paired_selections(head: CardView, rest: Seq<Seq<CardView>>) -> Seq<
    Seq<CardView>,
>
    decreases rest.len(),
{
    if rest.len() == 0 {
        Seq::empty()
    } else {
        seq![rest[0], seq![head] + rest[0]] + spec_paired_selections(head, rest.skip(1))
    }
}

/// Pairing doubles the length and acts pair by pair.
pub proof fn lemma_spec_paired_selections(head: CardView, rest: Seq<Seq<CardView>>)
    ensures
        spec_paired_selections(head, rest).len() == 2 * rest.len(),
        forall|u: int| 0 <= u < rest.len() ==> spec_paired_selections(head, rest)[2 * u]
            == #[trigger] rest[u],
        forall|u: int| 0 <= u < rest.len() ==> spec_paired_selections(head, rest)[2 * u + 1]
            == seq![head] + #[trigger] rest[u],
    decreases rest.len(),
{
    if rest.len() > 0 {
        lemma_spec_paired_selections(head, rest.skip(1));
        assert forall|u: int| 0 <= u < rest.len() implies spec_paired_selections(head, rest)[2 * u]
            == #[trigger] rest[u] && spec_paired_selections(head, rest)[2 * u + 1] == seq![head]
            + rest[u] by {
            if u > 0 {
                assert(rest.skip(1)[u - 1] == rest[u]);
                assert(spec_paired_selections(head, rest)[2 * u] == spec_paired_selections(
                    head,
                    rest.skip(1),
                )[2 * (u - 1)]);
                assert(spec_paired_selections(head, rest)[2 * u + 1] == spec_paired_selections(
                    head,
                    rest.skip(1),
                )[2 * (u - 1) + 1]);
            }
        }
    }
}

/// Every selection of the offer, in the order the search enumerates them:
/// for an empty offer only the empty selection; otherwise, for each
/// selection of the rest, first without the head card and then with it.
pub open spec fn spec_selections(offered: Seq<CardView>) -> Seq<Seq<CardView>>
    decreases offered.len(),
{
    if offered.len() == 0 {
        seq![Seq::<CardView>::empty()]
    } else {
        spec_paired_selections(offered[0], spec_selections(offered.skip(1)))
    }
}

/// Every way to select cards from the offer suffix starting at `start`: one
/// entry per choice vector over that suffix, and nothing else.
#[verifier::loop_isolation(false)]
#[verifier::rlimit(100)]
pub fn enumerate_purchases(offered: &Vec<Card>, start: usize) -> (r: Vec<Vec<Card>>)
    requires
        start <= offered@.len(),
    ensures
        r.deep_view() == spec_selections(offered.deep_view().skip(start as int)),
        forall|j: int| 0 <= j < r@.len() ==> is_selection_of(
            offered.deep_view().skip(start as int),
            (#[trigger] r@[j]).deep_view(),
        ),
        all_picks_covered(offered.deep_view().skip(start as int), r@),
    decreases offered@.len() - start,
{
    let ghost suffix = offered.deep_view().skip(start as int);
    let n = offered.len();
    if start == n {
        let mut r: Vec<Vec<Card>> = Vec::new();
        r.push(Vec::new());
        proof {
            assert(suffix =~= Seq::<CardView>::empty());
            assert(r@[0].deep_view() =~= Seq::<CardView>::empty());
            assert forall|pick: Seq<bool>|
                #![trigger chosen_cards(suffix, pick)]
                pick.len() == suffix.len() implies holds_selection(
                    r@,
                    chosen_cards(suffix, pick),
                ) by {
                assert(chosen_cards(suffix, pick) =~= Seq::<CardView>::empty());
                assert(r@[0].deep_view() == chosen_cards(suffix, pick));
                assert(holds_selection(r@, chosen_cards(suffix, pick)));
            }
            assert(all_picks_covered(suffix, r@));
            assert(all_picks_covered(offered.deep_view().skip(start as int), r@));
            let w = Seq::<bool>::empty();
            assert(chosen_cards(suffix, w) =~= Seq::<CardView>::empty());
            assert(r@[0].deep_view() == chosen_cards(suffix, w) && w.len() == suffix.len());
            assert(is_selection_of(suffix, r@[0].deep_view()));
            assert(r.deep_view() =~= spec_selections(suffix));
            assert(r.deep_view() == spec_selections(offered.deep_view().skip(start as int)));
        }
        r
    } else {
        let rest = enumerate_purchases(offered, start + 1);
        let ghost subsuffix = offered.deep_view().skip(start as int + 1);
        proof {
            assert(subsuffix =~= offered.deep_view().skip((start + 1) as int));
            assert(suffix.skip(1) =~= subsuffix);
            assert(suffix[0] == offered.deep_view()[start as int]);
            assert(suffix.len() == offered@.len() - start);
        }
        let mut r: Vec<Vec<Card>> = Vec::new();
        let m = rest.len();
        for t in 0..m
            invariant
                r@.len() == 2 * t,
                forall|u: int| 0 <= u < t ==> (#[trigger] r@[2 * u]).deep_view() == rest@[u].deep_view(),
                forall|u: int| 0 <= u < t ==> (#[trigger] r@[2 * u + 1]).deep_view() == seq![
                    suffix[0],
                ] + rest@[u].deep_view(),
        {
            let without = dup_cards(&rest[t]);
            r.push(without);
            let mut with_card: Vec<Card> = Vec::new();
            with_card.push(offered[start].duplicate());
            let mut tail = dup_cards(&rest[t]);
            let ghost head_view = with_card.deep_view();
            with_card.append(&mut tail);
            proof {
                assert(head_view =~= seq![suffix[0]]);
                assert forall|w: int| 0 <= w < with_card.deep_view().len() implies
                    with_card.deep_view()[w] == (head_view + rest@[t as int].deep_view())[w] by {
                }
                assert(with_card.deep_view() =~= seq![suffix[0]] + rest@[t as int].deep_view());
            }
            r.push(with_card);
        }
        proof {
            // Soundness: every entry corresponds to some choice vector.
            assert forall|j: int| 0 <= j < r@.len() implies is_selection_of(
                suffix,
                (#[trigger] r@[j]).deep_view(),
            ) by {
                let u = j / 2;
                assert(0 <= u < rest@.len());
                assert(is_selection_of(subsuffix, rest@[u].deep_view()));
                let sub = choose|pick: Seq<bool>|
                    pick.len() == subsuffix.len() && rest@[u].deep_view() == #[trigger] chosen_cards(
                        subsuffix,
                        pick,
                    );
                if j % 2 == 0 {
                    let w = seq![false] + sub;
                    assert(w.skip(1) =~= sub);
                    assert(w[0] == false);
                    assert(chosen_cards(suffix, w) == Seq::<CardView>::empty() + chosen_cards(
                        subsuffix,
                        sub,
                    ));
                    assert(chosen_cards(suffix, w) =~= chosen_cards(subsuffix, sub));
                    assert(j == 2 * u);
                    assert(r@[j].deep_view() == chosen_cards(suffix, w) && w.len() == suffix.len());
                } else {
                    let w = seq![true] + sub;
                    assert(w.skip(1) =~= sub);
                    assert(w[0] == true);
                    assert(chosen_cards(suffix, w) == seq![suffix[0]] + chosen_cards(subsuffix, sub));
                    assert(j == 2 * u + 1);
                    assert(r@[j].deep_view() == chosen_cards(suffix, w) && w.len() == suffix.len());
                }
            }
            // Completeness: every choice vector has an entry.
            assert(all_picks_covered(subsuffix, rest@));
            assert forall|pick: Seq<bool>|
                #![trigger chosen_cards(suffix, pick)]
                pick.len() == suffix.len() implies holds_selection(
                    r@,
                    chosen_cards(suffix, pick),
                ) by {
                let sub = pick.skip(1);
                assert(sub.len() == subsuffix.len());
                // Mentioning the term lets the recursive call's coverage fact
                // instantiate at this choice vector.
                assert(chosen_cards(subsuffix, sub) == chosen_cards(subsuffix, sub));
                assert(holds_selection(rest@, chosen_cards(subsuffix, sub)));
                let u = choose|u: int|
                    0 <= u && u < rest@.len() && (#[trigger] rest@[u]).deep_view() == chosen_cards(
                        subsuffix,
                        sub,
                    );
                if pick[0] {
                    assert(chosen_cards(suffix, pick) == seq![suffix[0]] + chosen_cards(subsuffix, sub));
                    assert(r@[2 * u + 1].deep_view() == chosen_cards(suffix, pick));
                } else {
                    assert(chosen_cards(suffix, pick) == Seq::<CardView>::empty() + chosen_cards(
                        subsuffix,
                        sub,
                    ));
                    assert(chosen_cards(suffix, pick) =~= rest@[u].deep_view());
                    assert(r@[2 * u].deep_view() == chosen_cards(suffix, pick));
                }
                assert(holds_selection(r@, chosen_cards(suffix, pick)));
            }
            assert(all_picks_covered(suffix, r@));
            assert(all_picks_covered(offered.deep_view().skip(start as int), r@));
            // The result is exactly the paired enumeration of the rest.
            let restview = rest.deep_view();
            assert(restview == spec_selections(subsuffix));
            lemma_spec_paired_selections(suffix[0], restview);
            assert forall|k: int| 0 <= k < r.deep_view().len() implies r.deep_view()[k]
                == spec_paired_selections(suffix[0], restview)[k] by {
                let u = k / 2;
                assert(0 <= u < restview.len());
                assert(restview[u] == rest@[u].deep_view());
                if k % 2 == 0 {
                    assert(k == 2 * u);
                    assert(r@[2 * u].deep_view() == rest@[u].deep_view());
                    assert(r.deep_view()[k] == r@[k].deep_view());
                } else {
                    assert(k == 2 * u + 1);
                    assert(r@[2 * u + 1].deep_view() == seq![suffix[0]] + rest@[u].deep_view());
                    assert(r.deep_view()[k] == r@[k].deep_view());
                }
            }
            assert(r.deep_view() =~= spec_paired_selections(suffix[0], restview));
            assert(spec_selections(suffix) == spec_paired_selections(
                suffix[0],
                spec_selections(suffix.skip(1)),
            ));
            assert(r.deep_view() == spec_selections(offered.deep_view().skip(start as int)));
        }
        r
    }
}


/// Whether the search may even attempt the card at the hand index: its
/// requirements can be queried, its cost class is payable, and taking on its
/// effects keeps the metal conversion values in range.
pub open spec fn spec_card_attemptable(p: PlayerStateView, i: int) -> bool {
    &&& spec_requirements_queryable(p.cards_in_hand[i])
    &&& spec_payable_cost_class(p.cards_in_hand[i].cost)
    &&& p.steel_value + metals_increase(p.cards_in_hand[i].effects) <= usize::MAX
    &&& p.titanium_value + metals_increase(p.cards_in_hand[i].effects) <= usize::MAX
}

/// The player after playing the card at the hand index: the cost is paid,
/// the production deltas are applied, the card moves into play, and its
/// effects are taken on.
pub open spec fn spec_play_outcome(p: PlayerStateView, i: int) -> PlayerStateView {
    let card = p.cards_in_hand[i];
    PlayerStateView {
        resources: spec_pay(p, card.cost),
        production: spec_apply_production(p.production, card.own_production),
        played_cards: p.played_cards.push(card),
        cards_in_hand: p.cards_in_hand.remove(i),
        effects: p.effects + card.effects,
        steel_value: (p.steel_value + metals_increase(card.effects)) as usize,
        titanium_value: (p.titanium_value + metals_increase(card.effects)) as usize,
        ..p
    }
}

/// The play of one card prepended to a later outcome.
pub open spec fn spec_tag_play(
    c: CardView,
    entry: (Seq<TurnActionView>, PlayerStateView),
) -> (Seq<TurnActionView>, PlayerStateView) {
    (seq![TurnActionView::PlayCard(c)] + entry.0, entry.1)
}

/// Every later outcome with the play of one card prepended, in order.
pub open spec fn spec_tagged_plays(
    c: CardView,
    entries: Seq<(Seq<TurnActionView>, PlayerStateView)>,
) -> Seq<(Seq<TurnActionView>, PlayerStateView)>
    decreases entries.len(),
{
    if entries.len() == 0 {
        Seq::empty()
    } else {
        seq![spec_tag_play(c, entries[0])] + spec_tagged_plays(c, entries.skip(1))
    }
}

/// Tagging keeps the length and acts entry by entry.
pub proof fn lemma_spec_tagged_plays(
    c: CardView,
    entries: Seq<(Seq<TurnActionView>, PlayerStateView)>,
)
    ensures
        spec_tagged_plays(c, entries).len() == entries.len(),
        forall|k: int| 0 <= k < entries.len() ==> spec_tagged_plays(c, entries)[k] == spec_tag_play(
            c,
            #[trigger] entries[k],
        ),
    decreases entries.len(),
{
    if entries.len() > 0 {
        lemma_spec_tagged_plays(c, entries.skip(1));
        assert forall|k: int| 0 <= k < entries.len() implies spec_tagged_plays(c, entries)[k]
            == spec_tag_play(c, #[trigger] entries[k]) by {
            if k > 0 {
                assert(entries.skip(1)[k - 1] == entries[k]);
            }
        }
    }
}

/// Every play-or-skip outcome over the hand from the given index on, in the
/// order the search yields them: the outcomes that skip the card first, then
/// — when the card can be attempted and is playable — the outcomes that play
/// it, each tagged with that play. Playing removes the card, so exploration
/// continues at the same index.
pub open spec fn spec_all_plays(p: PlayerStateView, i: int) -> Seq<(Seq<TurnActionView>, PlayerStateView)>
    recommends
        0 <= i <= p.cards_in_hand.len(),
    decreases p.cards_in_hand.len() - i,
{
    if i < 0 || i >= p.cards_in_hand.len() {
        seq![(Seq::<TurnActionView>::empty(), p)]
    } else {
        let skipped = spec_all_plays(p, i + 1);
        if spec_card_attemptable(p, i) && PlayerState::spec_card_playable(p, i) {
            skipped + spec_tagged_plays(p.cards_in_hand[i], spec_all_plays(spec_play_outcome(p, i), i))
        } else {
            skipped
        }
    }
}

/// Explores every play-or-skip combination over the hand from the given
/// index on. A card is attempted only when its requirements can be queried,
/// its cost class is payable and its effects keep the metal values in range;
/// playing a card removes it from the hand, so exploration continues at the
/// same index. The result always includes the all-pass leaf that plays
/// nothing.
#[verifier::loop_isolation(false)]
#[verifier::rlimit(100)]
pub fn make_all_possible_plays_recursively(
    next_card_index_to_consider: usize,
    initial_state: &PlayerState,
    opponent_states: &Vec<&PlayerState>,
) -> (r: Vec<(Vec<TurnAction>, PlayerState)>)
    requires
        initial_state.wf(),
        next_card_index_to_consider <= initial_state.cards_in_hand@.len(),
    ensures
        r.deep_view() == spec_all_plays(
            initial_state.deep_view(),
            next_card_index_to_consider as int,
        ),
        r@.len() >= 1,
        exists|j: int| 0 <= j < r@.len() && (#[trigger] r@[j]).0@.len() == 0
            && r@[j].1.deep_view() == initial_state.deep_view(),
        forall|j: int| 0 <= j < r@.len() ==> (#[trigger] r@[j]).1.wf(),
    decreases initial_state.cards_in_hand@.len() - next_card_index_to_consider,
{
    let ghost pv = initial_state.deep_view();
    let ghost idx = next_card_index_to_consider as int;
    proof {
        assert(pv.cards_in_hand.len() == initial_state.cards_in_hand@.len());
    }
    let hand_len = initial_state.cards_in_hand.len();
    if next_card_index_to_consider >= hand_len {
        let mut r: Vec<(Vec<TurnAction>, PlayerState)> = Vec::new();
        let leaf_moves: Vec<TurnAction> = Vec::new();
        r.push((leaf_moves, initial_state.duplicate()));
        proof {
            assert(r@[0].0@.len() == 0);
            assert(r@[0].1.deep_view() == pv);
            assert(r@[0].0.deep_view() =~= Seq::<TurnActionView>::empty());
            assert(r.deep_view() =~= spec_all_plays(pv, idx));
        }
        r
    } else {
        let mut results = make_all_possible_plays_recursively(
            next_card_index_to_consider + 1,
            initial_state,
            opponent_states,
        );
        let ghost base_len = results@.len();
        let ghost base = results@;
        let ghost skipped = results.deep_view();
        proof {
            assert(skipped == spec_all_plays(pv, idx + 1));
        }

        let card = &initial_state.cards_in_hand[next_card_index_to_consider];
        proof {
            assert(card.deep_view() == pv.cards_in_hand[idx]);
            assert(card.cost == pv.cards_in_hand[idx].cost);
            assert(card.effects.deep_view() == pv.cards_in_hand[idx].effects);
        }
        let attemptable = card_requirements_queryable(card) && card_cost_payable(card)
            && initial_state.metals_increase_fits(card);
        proof {
            assert(attemptable == spec_card_attemptable(pv, idx));
        }
        if attemptable {
            let mut state = initial_state.duplicate();
            proof {
                assert(state.deep_view().cards_in_hand.len() == state.cards_in_hand@.len());
                assert(initial_state.deep_view().cards_in_hand.len()
                    == initial_state.cards_in_hand@.len());
                assert(state.cards_in_hand@.len() == initial_state.cards_in_hand@.len());
                assert(state.deep_view().cards_in_hand[idx] == pv.cards_in_hand[idx]);
                assert(state.cards_in_hand@[idx].cost
                    == state.deep_view().cards_in_hand[idx].cost);
                assert(state.cards_in_hand@[idx].effects.deep_view()
                    == state.deep_view().cards_in_hand[idx].effects);
                assert(state.cards_in_hand.deep_view()[idx]
                    == state.cards_in_hand@[idx].deep_view());
                assert(state.cards_in_hand@[idx].deep_view() == pv.cards_in_hand[idx]);
                assert(state.cards_in_hand@[idx].own_production@
                    =~= pv.cards_in_hand[idx].own_production);
            }
            let played = state.play_card(next_card_index_to_consider);
            match played {
                Some(_) => {
                    let ghost outcome = spec_play_outcome(pv, idx);
                    proof {
                        assert(PlayerState::spec_card_playable(pv, idx));
                        let cardv = pv.cards_in_hand[idx];
                        // Each field of the post-play state matches the
                        // specification-level outcome.
                        assert(state.resources == spec_pay(pv, cardv.cost));
                        assert(state.production == spec_apply_production(
                            pv.production,
                            cardv.own_production,
                        ));
                        assert forall|j: int| 0 <= j < state.played_cards@.len() implies
                            state.played_cards.deep_view()[j] == pv.played_cards.push(cardv)[j] by {
                            assert(state.played_cards.deep_view()[j]
                                == state.played_cards@[j].deep_view());
                        }
                        assert(state.played_cards.deep_view() =~= pv.played_cards.push(cardv));
                        assert forall|j: int| 0 <= j < state.cards_in_hand@.len() implies
                            state.cards_in_hand.deep_view()[j] == pv.cards_in_hand.remove(idx)[j] by {
                            assert(state.cards_in_hand.deep_view()[j]
                                == state.cards_in_hand@[j].deep_view());
                        }
                        assert(state.cards_in_hand.deep_view() =~= pv.cards_in_hand.remove(idx));
                        assert(state.effects.deep_view() =~= pv.effects + cardv.effects);
                        assert(state.steel_value == outcome.steel_value);
                        assert(state.titanium_value == outcome.titanium_value);
                        assert(state.card_resources.deep_view() =~= pv.card_resources);
                        assert(state.tapped_active_cards.deep_view() =~= pv.tapped_active_cards);
                        assert(state.deep_view() == outcome);
                    }
                    let action = TurnAction::PlayCard(
                        initial_state.cards_in_hand[next_card_index_to_consider].duplicate(),
                    );
                    proof {
                        assert(action.deep_view() == TurnActionView::PlayCard(pv.cards_in_hand[idx]));
                        assert(state.cards_in_hand@.len() == initial_state.cards_in_hand@.len() - 1);
                    }
                    let mut sub = make_all_possible_plays_recursively(
                        next_card_index_to_consider,
                        &state,
                        opponent_states,
                    );
                    let ghost subview = sub.deep_view();
                    let ghost tagged = spec_tagged_plays(pv.cards_in_hand[idx], subview);
                    proof {
                        assert(subview == spec_all_plays(outcome, idx));
                        lemma_spec_tagged_plays(pv.cards_in_hand[idx], subview);
                    }
                    while sub.len() > 0
                        invariant
                            sub@.len() <= subview.len(),
                            sub.deep_view() == subview.subrange(
                                subview.len() - sub@.len(),
                                subview.len() as int,
                            ),
                            results@.len() == base_len + subview.len() - sub@.len(),
                            results.deep_view() == skipped + tagged.subrange(
                                0,
                                subview.len() - sub@.len(),
                            ),
                            forall|j: int| 0 <= j < base_len ==> #[trigger] results@[j] == base[j],
                            forall|j: int| 0 <= j < results@.len()
                                ==> (#[trigger] results@[j]).1.wf(),
                            forall|j: int| 0 <= j < sub@.len() ==> (#[trigger] sub@[j]).1.wf(),
                        decreases sub@.len(),
                    {
                        let ghost consumed = subview.len() - sub@.len();
                        let ghost sub_before = sub.deep_view();
                        let entry = sub.remove(0);
                        proof {
                            assert(entry.deep_view() == sub_before[0]);
                            assert(entry.deep_view() == subview[consumed]);
                            assert forall|j: int| 0 <= j < sub@.len() implies
                                sub.deep_view()[j] == subview.subrange(
                                    subview.len() - sub@.len(),
                                    subview.len() as int,
                                )[j] by {
                                assert(sub.deep_view()[j] == sub@[j].deep_view());
                                assert(sub.deep_view()[j] == sub_before[j + 1]);
                            }
                            assert(sub.deep_view() =~= subview.subrange(
                                subview.len() - sub@.len(),
                                subview.len() as int,
                            ));
                        }
                        let (moves, final_state) = entry;
                        let mut plays: Vec<TurnAction> = Vec::new();
                        plays.push(dup_turn_action(&action));
                        let ghost head = plays.deep_view();
                        let mut moves = moves;
                        plays.append(&mut moves);
                        proof {
                            assert(head =~= seq![TurnActionView::PlayCard(pv.cards_in_hand[idx])]);
                            assert forall|k: int| 0 <= k < plays.deep_view().len() implies
                                plays.deep_view()[k] == (head + subview[consumed].0)[k] by {
                                assert(plays.deep_view()[k] == plays@[k].deep_view());
                            }
                            assert(plays.deep_view() =~= head + subview[consumed].0);
                        }
                        let ghost before_push = results.deep_view();
                        results.push((plays, final_state));
                        proof {
                            assert(results@[results@.len() - 1] == (plays, final_state));
                            assert(results.deep_view()[results@.len() - 1]
                                == (plays.deep_view(), final_state.deep_view()));
                            assert((plays.deep_view(), final_state.deep_view()) == spec_tag_play(
                                pv.cards_in_hand[idx],
                                subview[consumed],
                            ));
                            assert((plays.deep_view(), final_state.deep_view())
                                == tagged[consumed]);
                            assert forall|j: int| 0 <= j < results@.len() implies
                                results.deep_view()[j] == (skipped + tagged.subrange(
                                    0,
                                    consumed + 1,
                                ))[j] by {
                                if j < results@.len() - 1 {
                                    assert(results.deep_view()[j] == before_push[j]);
                                }
                            }
                            assert(results.deep_view() =~= skipped + tagged.subrange(0, consumed + 1));
                        }
                    }
                    proof {
                        assert(tagged.subrange(0, tagged.len() as int) =~= tagged);
                        assert(results.deep_view() =~= skipped + tagged);
                        assert(results.deep_view() == spec_all_plays(pv, idx));
                    }
                }
                None => {
                    proof {
                        assert(!PlayerState::spec_card_playable(pv, idx));
                        assert(results.deep_view() == spec_all_plays(pv, idx));
                    }
                }
            }
        } else {
            proof {
                assert(results.deep_view() == spec_all_plays(pv, idx));
            }
        }
        proof {
            let w = choose|j: int|
                0 <= j < base_len && (#[trigger] base[j]).0@.len() == 0 && base[j].1.deep_view()
                    == initial_state.deep_view();
            assert(results@[w] == base[w]);
        }
        results
    }
}

/// Explores every play-or-skip combination over the whole hand.
pub fn make_all_possible_plays(
    initial_state: &PlayerState,
    opponent_states: &Vec<&PlayerState>,
) -> (r: Vec<(Vec<TurnAction>, PlayerState)>)
    requires
        initial_state.wf(),
    ensures
        r.deep_view() == spec_all_plays(initial_state.deep_view(), 0),
        r@.len() >= 1,
        exists|j: int| 0 <= j < r@.len() && (#[trigger] r@[j]).0@.len() == 0
            && r@[j].1.deep_view() == initial_state.deep_view(),
        forall|j: int| 0 <= j < r@.len() ==> (#[trigger] r@[j]).1.wf(),
{
    make_all_possible_plays_recursively(0, initial_state, opponent_states)
}

/// Tries to purchase one selection and, when affordable, appends every
/// play-or-skip outcome over the resulting hand to the results, in outcome
/// order.
#[verifier::loop_isolation(false)]
#[verifier::rlimit(100)]
fn process_selection(
    result: &mut Vec<(Vec<Card>, Vec<TurnAction>, PlayerState)>,
    selection: &Vec<Card>,
    initial_state: &PlayerState,
    opponent_states: &Vec<&PlayerState>,
)
    requires
        initial_state.wf(),
    ensures
        final(result)@.len() >= old(result)@.len(),
        forall|j: int| 0 <= j < old(result)@.len() ==> #[trigger] final(result)@[j] == old(
            result,
        )@[j],
        forall|j: int| 0 <= j < old(result)@.len() ==> #[trigger] final(result).deep_view()[j]
            == old(result).deep_view()[j],
        forall|j: int| old(result)@.len() <= j < final(result)@.len()
            ==> (#[trigger] final(result)@[j]).0.deep_view() == selection.deep_view()
                && CARD_PURCHASE_COST * final(result)@[j].0@.len()
                <= initial_state.resources.megacredits,
        CARD_PURCHASE_COST * selection.deep_view().len() <= initial_state.resources.megacredits
            ==> exists|j: int|
                0 <= j < final(result)@.len() && (#[trigger] final(result)@[j]).0.deep_view()
                    == selection.deep_view() && final(result)@[j].1@.len() == 0
                    && final(result)@[j].2.deep_view() == spec_after_purchase(
                    initial_state.deep_view(),
                    selection.deep_view(),
                ),
        ({
            let sel = selection.deep_view();
            let block = spec_all_plays(spec_after_purchase(initial_state.deep_view(), sel), 0);
            &&& (CARD_PURCHASE_COST * sel.len() <= initial_state.resources.megacredits ==> {
                &&& final(result)@.len() == old(result)@.len() + block.len()
                &&& forall|m: int| 0 <= m < block.len()
                    ==> final(result).deep_view()[old(result)@.len() + m] == (
                    sel,
                    (#[trigger] block[m]).0,
                    block[m].1,
                )
            })
            &&& (CARD_PURCHASE_COST * sel.len() > initial_state.resources.megacredits
                ==> final(result)@ == old(result)@)
        }),
{
    let ghost pv = initial_state.deep_view();
    let ghost sel = selection.deep_view();
    let purchased = dup_cards(selection);
    let mut current_state = initial_state.duplicate();
    proof {
        assert(purchased@.len() == purchased.deep_view().len());
        assert(sel.len() == purchased.deep_view().len());
    }
    let outcome = current_state.purchase_cards(purchased);
    match outcome {
        Some(_) => {
            proof {
                assert(current_state.cards_in_hand.deep_view() =~= pv.cards_in_hand + sel);
                assert(current_state.deep_view() =~= spec_after_purchase(pv, sel));
            }
            let mut plays = make_all_possible_plays(&current_state, opponent_states);
            let ghost plays_orig = plays@;
            let ghost block = plays.deep_view();
            let ghost before = result@;
            let ghost beforeview = result.deep_view();
            let ghost current_view = current_state.deep_view();
            proof {
                assert(block == spec_all_plays(spec_after_purchase(pv, sel), 0));
                assert(plays.deep_view() =~= block.subrange(
                    block.len() - plays@.len(),
                    block.len() as int,
                ));
            }
            while plays.len() > 0
                invariant
                    plays@.len() <= block.len(),
                    plays.deep_view() == block.subrange(
                        block.len() - plays@.len(),
                        block.len() as int,
                    ),
                    result@.len() == before.len() + block.len() - plays@.len(),
                    forall|j: int| 0 <= j < before.len() ==> #[trigger] result@[j] == before[j],
                    forall|j: int| 0 <= j < before.len() ==> #[trigger] result.deep_view()[j]
                        == beforeview[j],
                    forall|m: int| 0 <= m < block.len() - plays@.len()
                        ==> result.deep_view()[before.len() + m] == (
                        sel,
                        (#[trigger] block[m]).0,
                        block[m].1,
                    ),
                    forall|j: int| before.len() <= j < result@.len()
                        ==> (#[trigger] result@[j]).0.deep_view() == sel && CARD_PURCHASE_COST
                            * result@[j].0@.len() <= initial_state.resources.megacredits,
                decreases plays@.len(),
            {
                let ghost consumed = block.len() - plays@.len();
                let ghost plays_before = plays.deep_view();
                let entry = plays.remove(0);
                proof {
                    assert(entry.deep_view() == plays_before[0]);
                    assert(entry.deep_view() == block[consumed]);
                    assert forall|j: int| 0 <= j < plays@.len() implies plays.deep_view()[j]
                        == block.subrange(block.len() - plays@.len(), block.len() as int)[j] by {
                        assert(plays.deep_view()[j] == plays@[j].deep_view());
                        assert(plays.deep_view()[j] == plays_before[j + 1]);
                    }
                    assert(plays.deep_view() =~= block.subrange(
                        block.len() - plays@.len(),
                        block.len() as int,
                    ));
                }
                let (moves, final_state) = entry;
                let purchased_copy = dup_cards(selection);
                proof {
                    assert(purchased_copy@.len() == sel.len());
                    assert(CARD_PURCHASE_COST * purchased_copy@.len()
                        <= initial_state.resources.megacredits);
                    assert((moves.deep_view(), final_state.deep_view()) == block[consumed]);
                }
                let ghost before_push = result.deep_view();
                result.push((purchased_copy, moves, final_state));
                proof {
                    assert(result@[result@.len() - 1] == (purchased_copy, moves, final_state));
                    assert(result.deep_view()[result@.len() - 1] == (
                        purchased_copy.deep_view(),
                        moves.deep_view(),
                        final_state.deep_view(),
                    ));
                    assert(result.deep_view()[result@.len() - 1] == (
                        sel,
                        block[consumed].0,
                        block[consumed].1,
                    ));
                    assert forall|j: int| 0 <= j < result@.len() - 1 implies
                        result.deep_view()[j] == before_push[j] by {
                    }
                }
            }
            proof {
                assert(plays@.len() == 0);
                let m = choose|m: int|
                    0 <= m < plays_orig.len() && (#[trigger] plays_orig[m]).0@.len() == 0
                        && plays_orig[m].1.deep_view() == current_view;
                assert(block[m] == (plays_orig[m].0.deep_view(), plays_orig[m].1.deep_view()));
                assert(block[m].0.len() == 0);
                assert(block[m].1 == spec_after_purchase(pv, sel));
                let j = before.len() as int + m;
                assert(result.deep_view()[j] == (sel, block[m].0, block[m].1));
                assert(result.deep_view()[j] == (
                    result@[j].0.deep_view(),
                    result@[j].1.deep_view(),
                    result@[j].2.deep_view(),
                ));
                assert(result@[j].1@.len() == result@[j].1.deep_view().len());
                assert(result@[j].1@.len() == 0);
                assert(result@[j].2.deep_view() == spec_after_purchase(pv, sel));
                assert(result@[j].0.deep_view() == sel);
            }
        }
        None => {
            proof {
                assert(CARD_PURCHASE_COST * sel.len() > initial_state.resources.megacredits);
            }
        }
    }
}

/// Every outcome of one purchased selection, tagged with that selection.
pub open spec fn spec_tagged_results(
    sel: Seq<CardView>,
    entries: Seq<(Seq<TurnActionView>, PlayerStateView)>,
) -> Seq<(Seq<CardView>, Seq<TurnActionView>, PlayerStateView)>
    decreases entries.len(),
{
    if entries.len() == 0 {
        Seq::empty()
    } else {
        seq![(sel, entries[0].0, entries[0].1)] + spec_tagged_results(sel, entries.skip(1))
    }
}

/// Tagging results keeps the length and acts entry by entry.
pub proof fn lemma_spec_tagged_results(
    sel: Seq<CardView>,
    entries: Seq<(Seq<TurnActionView>, PlayerStateView)>,
)
    ensures
        spec_tagged_results(sel, entries).len() == entries.len(),
        forall|m: int| 0 <= m < entries.len() ==> spec_tagged_results(sel, entries)[m] == (
            sel,
            (#[trigger] entries[m]).0,
            entries[m].1,
        ),
    decreases entries.len(),
{
    if entries.len() > 0 {
        lemma_spec_tagged_results(sel, entries.skip(1));
        assert forall|m: int| 0 <= m < entries.len() implies spec_tagged_results(sel, entries)[m]
            == (sel, (#[trigger] entries[m]).0, entries[m].1) by {
            if m > 0 {
                assert(entries.skip(1)[m - 1] == entries[m]);
            }
        }
    }
}

/// The contribution of one selection: when its price fits the megacredit
/// balance, every play-or-skip outcome after purchasing it, tagged with it;
/// nothing otherwise.
pub open spec fn spec_selection_results(p: PlayerStateView, sel: Seq<CardView>) -> Seq<
    (Seq<CardView>, Seq<TurnActionView>, PlayerStateView),
> {
    if CARD_PURCHASE_COST * sel.len() <= p.resources.megacredits {
        spec_tagged_results(sel, spec_all_plays(spec_after_purchase(p, sel), 0))
    } else {
        Seq::empty()
    }
}

/// The whole search result: the contributions of the selections, in
/// enumeration order.
pub open spec fn spec_generation_results(
    p: PlayerStateView,
    sels: Seq<Seq<CardView>>,
) -> Seq<(Seq<CardView>, Seq<TurnActionView>, PlayerStateView)>
    decreases sels.len(),
{
    if sels.len() == 0 {
        Seq::empty()
    } else {
        spec_selection_results(p, sels[0]) + spec_generation_results(p, sels.skip(1))
    }
}

/// One more selection appends its contribution.
pub proof fn lemma_spec_generation_results_push(
    p: PlayerStateView,
    sels: Seq<Seq<CardView>>,
    x: Seq<CardView>,
)
    ensures
        spec_generation_results(p, sels.push(x)) == spec_generation_results(p, sels)
            + spec_selection_results(p, x),
    decreases sels.len(),
{
    if sels.len() == 0 {
        assert(sels.push(x).skip(1) =~= Seq::<Seq<CardView>>::empty());
        assert(sels.push(x)[0] == x);
        assert(spec_generation_results(p, sels.push(x)) == spec_selection_results(p, x)
            + spec_generation_results(p, Seq::<Seq<CardView>>::empty()));
        assert(spec_generation_results(p, sels.push(x)) =~= spec_generation_results(p, sels)
            + spec_selection_results(p, x));
    } else {
        lemma_spec_generation_results_push(p, sels.skip(1), x);
        assert(sels.push(x).skip(1) =~= sels.skip(1).push(x));
        assert(sels.push(x)[0] == sels[0]);
        assert(spec_generation_results(p, sels.push(x)) == spec_selection_results(p, sels[0])
            + spec_generation_results(p, sels.skip(1).push(x)));
        assert(spec_generation_results(p, sels) == spec_selection_results(p, sels[0])
            + spec_generation_results(p, sels.skip(1)));
        assert(spec_generation_results(p, sels.push(x)) =~= spec_generation_results(p, sels)
            + spec_selection_results(p, x));
    }
}

/// Enumerates every purchase of a subset of the offered cards that the
/// player can afford, and for each, every play-or-skip combination over the
/// resulting hand. Each result carries the purchased cards, the plays taken,
/// and the final state.
///
/// Exactly the affordable selections appear among the results: a selection
/// is purchased iff its price fits the megacredit balance, and each
/// purchased selection contributes at least the all-pass result that plays
/// nothing after the purchase.
#[verifier::loop_isolation(false)]
#[verifier::rlimit(80)]
pub fn get_possible_generation_plays(
    initial_state: &PlayerState,
    opponent_states: &Vec<&PlayerState>,
    offered_cards: Vec<Card>,
) -> (r: Vec<(Vec<Card>, Vec<TurnAction>, PlayerState)>)
    requires
        initial_state.wf(),
        offered_cards@.len() <= MAX_OFFERED_CARDS,
    ensures
        forall|j: int| 0 <= j < r@.len() ==> CARD_PURCHASE_COST * (#[trigger] r@[j]).0@.len()
            <= initial_state.resources.megacredits,
        forall|j: int| 0 <= j < r@.len() ==> is_selection_of(
            offered_cards.deep_view(),
            (#[trigger] r@[j]).0.deep_view(),
        ),
        forall|pick: Seq<bool>|
            pick.len() == offered_cards@.len() && CARD_PURCHASE_COST * (#[trigger] chosen_cards(
                offered_cards.deep_view(),
                pick,
            )).len() <= initial_state.resources.megacredits ==> exists|j: int|
                0 <= j < r@.len() && r@[j].0.deep_view() == chosen_cards(
                    offered_cards.deep_view(),
                    pick,
                ) && r@[j].1@.len() == 0 && r@[j].2.deep_view() == spec_after_purchase(
                    initial_state.deep_view(),
                    chosen_cards(offered_cards.deep_view(), pick),
                ),
        r.deep_view() == spec_generation_results(
            initial_state.deep_view(),
            spec_selections(offered_cards.deep_view()),
        ),
{
    let ghost pv = initial_state.deep_view();
    let subsets = enumerate_purchases(&offered_cards, 0);
    proof {
        assert(offered_cards.deep_view().skip(0) =~= offered_cards.deep_view());
    }
    let mut result: Vec<(Vec<Card>, Vec<TurnAction>, PlayerState)> = Vec::new();
    let sn = subsets.len();
    for t in 0..sn
        invariant
            forall|j: int| 0 <= j < result@.len() ==> CARD_PURCHASE_COST * (#[trigger] result@[j]).0@.len()
                <= initial_state.resources.megacredits,
            forall|j: int| 0 <= j < result@.len() ==> exists|u: int|
                0 <= u < subsets@.len() && (#[trigger] result@[j]).0.deep_view()
                    == subsets@[u].deep_view(),
            forall|u: int|
                0 <= u < t && CARD_PURCHASE_COST * (#[trigger] subsets@[u]).deep_view().len()
                    <= initial_state.resources.megacredits ==> exists|j: int|
                    0 <= j < result@.len() && (#[trigger] result@[j]).0.deep_view()
                        == subsets@[u].deep_view() && result@[j].1@.len() == 0
                        && result@[j].2.deep_view() == spec_after_purchase(
                        pv,
                        subsets@[u].deep_view(),
                    ),
            result.deep_view() == spec_generation_results(
                pv,
                subsets.deep_view().subrange(0, t as int),
            ),
    {
        let ghost prevr = result@;
        let ghost prevview = result.deep_view();
        process_selection(&mut result, &subsets[t], initial_state, opponent_states);
        proof {
            assert(subsets@[t as int] == subsets[t as int]);
            // The appended entries are exactly this selection's contribution.
            let selv = subsets@[t as int].deep_view();
            assert((&subsets[t as int]).deep_view() == selv);
            let blockp = spec_all_plays(spec_after_purchase(pv, selv), 0);
            lemma_spec_tagged_results(selv, blockp);
            if CARD_PURCHASE_COST * selv.len() <= initial_state.resources.megacredits {
                assert(result@.len() == prevr.len() + blockp.len());
                assert forall|k: int| 0 <= k < result.deep_view().len() implies
                    result.deep_view()[k] == (prevview + spec_selection_results(pv, selv))[k] by {
                    if k < prevr.len() {
                        assert(result.deep_view()[k] == prevview[k]);
                    } else {
                        assert(result.deep_view()[prevr.len() + (k - prevr.len())] == (
                            selv,
                            blockp[k - prevr.len()].0,
                            blockp[k - prevr.len()].1,
                        ));
                        assert(spec_tagged_results(selv, blockp)[k - prevr.len()] == (
                            selv,
                            blockp[k - prevr.len()].0,
                            blockp[k - prevr.len()].1,
                        ));
                    }
                }
                assert(result.deep_view() =~= prevview + spec_selection_results(pv, selv));
            } else {
                assert(result@ == prevr);
                assert(result.deep_view() =~= prevview + spec_selection_results(pv, selv));
            }
            lemma_spec_generation_results_push(pv, subsets.deep_view().subrange(0, t as int), selv);
            assert(subsets.deep_view().subrange(0, t as int + 1) =~= subsets.deep_view().subrange(
                0,
                t as int,
            ).push(selv));
            assert(result.deep_view() == spec_generation_results(
                pv,
                subsets.deep_view().subrange(0, t as int + 1),
            ));
            assert forall|j: int| 0 <= j < result@.len() implies exists|u: int|
                0 <= u < subsets@.len() && (#[trigger] result@[j]).0.deep_view()
                    == subsets@[u].deep_view() by {
                if j < prevr.len() {
                    assert(result@[j] == prevr[j]);
                    let u0 = choose|u: int|
                        0 <= u < subsets@.len() && (#[trigger] prevr[j]).0.deep_view()
                            == subsets@[u].deep_view();
                    assert(result@[j].0.deep_view() == subsets@[u0].deep_view());
                } else {
                    assert(result@[j].0.deep_view() == subsets@[t as int].deep_view());
                }
            }
            assert forall|u: int|
                0 <= u < t + 1 && CARD_PURCHASE_COST * (#[trigger] subsets@[u]).deep_view().len()
                    <= initial_state.resources.megacredits implies exists|j: int|
                    0 <= j < result@.len() && (#[trigger] result@[j]).0.deep_view()
                        == subsets@[u].deep_view() && result@[j].1@.len() == 0
                        && result@[j].2.deep_view() == spec_after_purchase(
                        pv,
                        subsets@[u].deep_view(),
                    ) by {
                if u == t as int {
                    let j0 = choose|j: int|
                        0 <= j < result@.len() && (#[trigger] result@[j]).0.deep_view()
                            == subsets@[t as int].deep_view() && result@[j].1@.len() == 0
                            && result@[j].2.deep_view() == spec_after_purchase(
                            pv,
                            subsets@[t as int].deep_view(),
                        );
                } else {
                    let j0 = choose|j: int|
                        0 <= j < prevr.len() && (#[trigger] prevr[j]).0.deep_view()
                            == subsets@[u].deep_view() && prevr[j].1@.len() == 0
                            && prevr[j].2.deep_view() == spec_after_purchase(
                            pv,
                            subsets@[u].deep_view(),
                        );
                    assert(result@[j0] == prevr[j0]);
                }
            }
        }
    }
    proof {
        assert(subsets.deep_view().subrange(0, subsets@.len() as int) =~= subsets.deep_view());
        assert(spec_selections(offered_cards.deep_view().skip(0)) == spec_selections(
            offered_cards.deep_view(),
        ));
        assert(result.deep_view() == spec_generation_results(
            pv,
            spec_selections(offered_cards.deep_view()),
        ));
        // Entries are selections of the offer.
        assert forall|j: int| 0 <= j < result@.len() implies is_selection_of(
            offered_cards.deep_view(),
            (#[trigger] result@[j]).0.deep_view(),
        ) by {
            let u = choose|u: int|
                0 <= u < subsets@.len() && (#[trigger] result@[j]).0.deep_view()
                    == subsets@[u].deep_view();
            assert(is_selection_of(offered_cards.deep_view().skip(0), subsets@[u].deep_view()));
            let w = choose|pick: Seq<bool>|
                pick.len() == offered_cards.deep_view().skip(0).len() && subsets@[u].deep_view()
                    == #[trigger] chosen_cards(offered_cards.deep_view().skip(0), pick);
            assert(chosen_cards(offered_cards.deep_view().skip(0), w) == chosen_cards(
                offered_cards.deep_view(),
                w,
            ));
            assert(result@[j].0.deep_view() == chosen_cards(offered_cards.deep_view(), w) && w.len()
                == offered_cards.deep_view().len());
        }
        // Every affordable selection was processed with an all-pass leaf.
        assert forall|pick: Seq<bool>|
            pick.len() == offered_cards@.len() && CARD_PURCHASE_COST * (#[trigger] chosen_cards(
                offered_cards.deep_view(),
                pick,
            )).len() <= initial_state.resources.megacredits implies exists|j: int|
            0 <= j < result@.len() && result@[j].0.deep_view() == chosen_cards(
                offered_cards.deep_view(),
                pick,
            ) && result@[j].1@.len() == 0 && result@[j].2.deep_view() == spec_after_purchase(
                pv,
                chosen_cards(offered_cards.deep_view(), pick),
            ) by {
            assert(chosen_cards(offered_cards.deep_view().skip(0), pick) == chosen_cards(
                offered_cards.deep_view(),
                pick,
            ));
            assert(holds_selection(subsets@, chosen_cards(offered_cards.deep_view().skip(0), pick)));
            let u = choose|u: int|
                0 <= u && u < subsets@.len() && (#[trigger] subsets@[u]).deep_view() == chosen_cards(
                    offered_cards.deep_view().skip(0),
                    pick,
                );
        }
    }
    result
}

} // verus!