use card_battle::card::Card;
use card_battle::shop::{Shop, ShopError};
use card_battle::FightResult;

fn shop_of(stats: &[(u32, u32, u32)]) -> Shop {
    let mut cards = Vec::new();
    for &(price, health, damage) in stats {
        cards.push(Card { price, health, damage });
    }
    Shop { cards }
}

fn mirrored_outcome(result: FightResult) -> FightResult {
    match result {
        FightResult::Win => FightResult::Loss,
        FightResult::Loss => FightResult::Win,
        FightResult::Tie => FightResult::Tie,
        FightResult::Draw => FightResult::Draw,
    }
}

#[test]
fn empty_shop_totals_are_zero() {
    let shop = shop_of(&[]);
    assert_eq!(shop.total_damage(), 0);
    assert_eq!(shop.total_health(), 0);
}

#[test]
fn empty_shop_has_no_most_expensive_card() {
    let shop = shop_of(&[]);
    assert_eq!(shop.most_expensive(), Err(ShopError::EmptyCollection));
}

#[test]
fn two_card_shop_stats() {
    let shop = shop_of(&[(10, 1, 1), (50, 2, 2)]);
    assert_eq!(shop.most_expensive(), Ok(50));
    assert_eq!(shop.total_damage(), 3);
    assert_eq!(shop.total_health(), 3);
}

#[test]
fn most_expensive_wherever_it_stands() {
    assert_eq!(shop_of(&[(50, 1, 1), (10, 2, 2), (20, 3, 3)]).most_expensive(), Ok(50));
    assert_eq!(shop_of(&[(10, 1, 1), (50, 2, 2), (20, 3, 3)]).most_expensive(), Ok(50));
    assert_eq!(shop_of(&[(10, 1, 1), (20, 2, 2), (50, 3, 3)]).most_expensive(), Ok(50));
    assert_eq!(shop_of(&[(7, 1, 1), (7, 2, 2)]).most_expensive(), Ok(7));
    assert_eq!(shop_of(&[(0, 1, 1)]).most_expensive(), Ok(0));
    assert_eq!(shop_of(&[(3, 1, 1), (u32::MAX, 1, 1)]).most_expensive(), Ok(u32::MAX));
}

#[test]
fn totals_take_damage_and_health_apart() {
    let shop = shop_of(&[(1, 100, 7), (2, 20, 30), (3, 3, 500)]);
    assert_eq!(shop.total_damage(), 537);
    assert_eq!(shop.total_health(), 123);
}

#[test]
fn totals_reach_the_largest_number() {
    let shop = shop_of(&[(1, u32::MAX - 1, u32::MAX), (2, 1, 0)]);
    assert_eq!(shop.total_damage(), u32::MAX);
    assert_eq!(shop.total_health(), u32::MAX);
}

#[test]
fn mutually_lethal_single_cards_tie() {
    let a = shop_of(&[(0, 1, 10)]);
    let b = shop_of(&[(0, 1, 10)]);
    assert_eq!(a.fight_store(&b), FightResult::Tie);
}

#[test]
fn empty_shops_tie() {
    let empty = shop_of(&[]);
    let other = shop_of(&[(1, 2, 3)]);
    assert_eq!(empty.fight_store(&empty), FightResult::Tie);
    assert_eq!(empty.fight_store(&other), FightResult::Tie);
    assert_eq!(other.fight_store(&empty), FightResult::Tie);
}

#[test]
fn shop_with_more_winning_pairs_wins() {
    // Strong beats both weak cards (2 wins); feeble loses to none, wins none.
    let a = shop_of(&[(0, 100, 10), (0, 100, 0)]);
    let b = shop_of(&[(0, 5, 1), (0, 10, 2)]);
    assert_eq!(a.fight_store(&b), FightResult::Win);
    assert_eq!(b.fight_store(&a), FightResult::Loss);
}

#[test]
fn equal_wins_and_losses_tie() {
    // a[0] beats b[0]; a[1] loses to b[0]; both pairs with b[1] are draws.
    let a = shop_of(&[(0, 50, 10), (0, 5, 1)]);
    let b = shop_of(&[(0, 10, 5), (0, 1000, 0)]);
    assert_eq!(a.fight_store(&b), FightResult::Tie);
    assert_eq!(b.fight_store(&a), FightResult::Tie);
}

#[test]
fn every_pair_counts_not_only_matching_places() {
    // The single card of `a` beats each of the three cards of `b`, and the
    // last card of `b` is the only one that would be lethal, yet it dies too.
    let a = shop_of(&[(0, 10, 10)]);
    let b = shop_of(&[(0, 1, 1), (0, 2, 2), (0, 3, 3)]);
    assert_eq!(a.fight_store(&b), FightResult::Win);
    // One mutual kill and two losses for `c`'s only card.
    let c = shop_of(&[(0, 5, 5)]);
    let d = shop_of(&[(0, 6, 5), (0, 7, 6), (0, 5, 5)]);
    assert_eq!(c.fight_store(&d), FightResult::Loss);
}

#[test]
fn pairwise_draws_and_ties_never_give_a_draw() {
    let a = shop_of(&[(0, 10, 1), (0, 10, 2)]);
    let b = shop_of(&[(0, 10, 3)]);
    assert_eq!(a.fight_store(&b), FightResult::Tie);
}

#[test]
fn swapping_the_shops_mirrors_the_outcome() {
    let rows: [&[(u32, u32, u32)]; 6] = [
        &[],
        &[(0, 1, 10)],
        &[(0, 100, 10), (0, 100, 0)],
        &[(0, 5, 1), (0, 10, 2)],
        &[(0, 6, 5), (0, 7, 6), (0, 5, 5)],
        &[(0, 3, 9), (0, 9, 3), (0, 4, 4), (0, 0, 0)],
    ];
    for left in rows.iter() {
        for right in rows.iter() {
            let a = shop_of(left);
            let b = shop_of(right);
            let there = a.fight_store(&b);
            assert_ne!(there, FightResult::Draw);
            assert_eq!(b.fight_store(&a), mirrored_outcome(there));
        }
    }
}

#[test]
fn wins_one_way_are_losses_the_other_way() {
    // Of the nine pairs, `a` wins four and loses one.
    let a = shop_of(&[(0, 3, 9), (0, 9, 3), (0, 4, 4)]);
    let b = shop_of(&[(0, 6, 5), (0, 2, 6), (0, 1, 0)]);
    let mut a_wins = 0;
    let mut b_losses = 0;
    for x in a.cards.iter() {
        for y in b.cards.iter() {
            if x.fight(y) == FightResult::Win {
                a_wins += 1;
            }
            if y.fight(x) == FightResult::Loss {
                b_losses += 1;
            }
        }
    }
    assert_eq!(a_wins, 4);
    assert_eq!(b_losses, 4);
    assert_eq!(a.fight_store(&b), FightResult::Win);
}
