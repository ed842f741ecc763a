//! Counting the pairwise fights between two rows of cards by their outcome.

use crate::card::Card;
use crate::fight_result::FightResult;
use vstd::prelude::*;

verus! {

/// How many cards of `others` the card `card` fights with outcome `outcome`.
pub open spec fn card_tally(card: Card, others: Seq<Card>, outcome: FightResult) -> nat
    decreases others.len(),
{
    if others.len() == 0 {
        0
    } else {
        let rest = card_tally(card, others.drop_last(), outcome);
        if card.spec_fight(others.last()) == outcome {
            rest + 1
        } else {
            rest
        }
    }
}

/// How many pairs of a card of `ours` and a card of `theirs`, the first
/// fighting the second, end with outcome `outcome`.
pub open spec fn pair_tally(ours: Seq<Card>, theirs: Seq<Card>, outcome: FightResult) -> nat
    decreases ours.len(),
{
    if ours.len() == 0 {
        0
    } else {
        pair_tally(ours.drop_last(), theirs, outcome) + card_tally(ours.last(), theirs, outcome)
    }
}

/// One card's fights against a row are split among the four outcomes.
pub proof fn lemma_card_tally_partition(card: Card, others: Seq<Card>)
    ensures
        card_tally(card, others, FightResult::Win) + card_tally(card, others, FightResult::Loss)
            + card_tally(card, others, FightResult::Tie) + card_tally(
            card,
            others,
            FightResult::Draw,
        ) == others.len(),
    decreases others.len(),
{
    if others.len() > 0 {
        lemma_card_tally_partition(card, others.drop_last());
    }
}

/// Every pair of the cross product is counted under exactly one outcome.
pub proof fn lemma_pair_tally_partition(ours: Seq<Card>, theirs: Seq<Card>)
    ensures
        pair_tally(ours, theirs, FightResult::Win) + pair_tally(ours, theirs, FightResult::Loss)
            + pair_tally(ours, theirs, FightResult::Tie) + pair_tally(
            ours,
            theirs,
            FightResult::Draw,
        ) == ours.len() * theirs.len(),
    decreases ours.len(),
{
    if ours.len() > 0 {
        lemma_pair_tally_partition(ours.drop_last(), theirs);
        lemma_card_tally_partition(ours.last(), theirs);
        assert(ours.len() * theirs.len() == (ours.len() - 1) * theirs.len() + theirs.len())
            by (nonlinear_arith);
    } else {
        assert(0 * theirs.len() == 0) by (nonlinear_arith);
    }
}

/// Adding a card to the defending row adds that card's fights against every
/// attacker, each counted from the new card's side under the mirrored outcome.
proof fn lemma_pair_tally_push_defender(
    ours: Seq<Card>,
    theirs: Seq<Card>,
    card: Card,
    outcome: FightResult,
)
    ensures
        pair_tally(ours, theirs.push(card), outcome) == pair_tally(ours, theirs, outcome)
            + card_tally(card, ours, outcome.mirrored()),
    decreases ours.len(),
{
    if ours.len() > 0 {
        lemma_pair_tally_push_defender(ours.drop_last(), theirs, card, outcome);
        assert(theirs.push(card).drop_last() =~= theirs);
        assert(theirs.push(card).last() == card);
        Card::lemma_fight_mirrored(ours.last(), card);
    }
}

/// Swapping the two rows swaps the roles in every pair: the pairs that end
/// with `outcome` one way round are those that end with its mirror image the
/// other way round.
pub proof fn lemma_pair_tally_mirrored(ours: Seq<Card>, theirs: Seq<Card>, outcome: FightResult)
    ensures
        pair_tally(theirs, ours, outcome.mirrored()) == pair_tally(ours, theirs, outcome),
    decreases ours.len(),
{
    if ours.len() == 0 {
        lemma_pair_tally_no_defender(theirs, outcome.mirrored());
        assert(ours =~= Seq::<Card>::empty());
    } else {
        lemma_pair_tally_mirrored(ours.drop_last(), theirs, outcome);
        lemma_pair_tally_push_defender(theirs, ours.drop_last(), ours.last(), outcome.mirrored());
        assert(ours.drop_last().push(ours.last()) =~= ours);
    }
}

/// Against an empty row there is no pair to count.
proof fn lemma_pair_tally_no_defender(ours: Seq<Card>, outcome: FightResult)
    ensures
        pair_tally(ours, Seq::<Card>::empty(), outcome) == 0,
    decreases ours.len(),
{
    if ours.len() > 0 {
        lemma_pair_tally_no_defender(ours.drop_last(), outcome);
    }
}

} // verus!
