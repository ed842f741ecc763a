use crate::card::Card;
use crate::decimal::{decimal, decimal_string};
use crate::fight_result::FightResult;
use crate::tally::{
    card_tally, lemma_card_tally_partition, lemma_pair_tally_mirrored,
    lemma_pair_tally_partition, pair_tally,
};
use vstd::prelude::*;

verus! {

/// Why a query on a shop has no answer.
#[derive(Clone, Copy, Debug, PartialEq, Eq, Structural)]
pub enum ShopError {
    /// The shop holds no card, so there is nothing to take a maximum of.
    EmptyCollection,
}

/// A shop holds a row of cards.
#[derive(Debug)]
pub struct Shop {
    pub cards: Vec<Card>,
}

impl View for Shop {
    type V = Seq<Card>;

    open spec fn view(&self) -> Seq<Card> {
        self.cards@
    }
}

/// The damage of all the cards added up.
pub open spec fn damage_sum(cards: Seq<Card>) -> nat
    decreases cards.len(),
{
    if cards.len() == 0 {
        0
    } else {
        damage_sum(cards.drop_last()) + cards.last().damage as nat
    }
}

/// The health of all the cards added up.
pub open spec fn health_sum(cards: Seq<Card>) -> nat
    decreases cards.len(),
{
    if cards.len() == 0 {
        0
    } else {
        health_sum(cards.drop_last()) + cards.last().health as nat
    }
}

/// `price` is the price of one of the cards, and no card costs more.
pub open spec fn is_top_price(cards: Seq<Card>, price: u32) -> bool {
    &&& exists|i: int| 0 <= i < cards.len() && #[trigger] cards[i].price == price
    &&& forall|i: int| 0 <= i < cards.len() ==> #[trigger] cards[i].price <= price
}

/// A row of cards has at most one top price.
pub proof fn lemma_top_price_unique(cards: Seq<Card>, p: u32, q: u32)
    requires
        is_top_price(cards, p),
        is_top_price(cards, q),
    ensures
        p == q,
{
    let i = choose|i: int| 0 <= i < cards.len() && #[trigger] cards[i].price == p;
    let j = choose|j: int| 0 <= j < cards.len() && #[trigger] cards[j].price == q;
    assert(cards[i].price <= q);
    assert(cards[j].price <= p);
}

/// The overall outcome for the side that won `wins` pairwise fights and lost
/// `losses` of them. It is never a draw.
pub open spec fn tally_outcome(wins: nat, losses: nat) -> FightResult {
    if wins < losses {
        FightResult::Loss
    } else if wins > losses {
        FightResult::Win
    } else {
        FightResult::Tie
    }
}

/// The sum only grows as cards are added to the row.
proof fn lemma_damage_sum_take(cards: Seq<Card>, n: int)
    requires
        0 <= n <= cards.len(),
    ensures
        damage_sum(cards.take(n)) <= damage_sum(cards),
    decreases cards.len() - n,
{
    if n < cards.len() {
        lemma_damage_sum_take(cards, n + 1);
        assert(cards.take(n + 1).drop_last() =~= cards.take(n));
    } else {
        assert(cards.take(n) =~= cards);
    }
}

/// The sum only grows as cards are added to the row.
proof fn lemma_health_sum_take(cards: Seq<Card>, n: int)
    requires
        0 <= n <= cards.len(),
    ensures
        health_sum(cards.take(n)) <= health_sum(cards),
    decreases cards.len() - n,
{
    if n < cards.len() {
        lemma_health_sum_take(cards, n + 1);
        assert(cards.take(n + 1).drop_last() =~= cards.take(n));
    } else {
        assert(cards.take(n) =~= cards);
    }
}

impl Shop {
    /// The pairwise fights of this shop's cards against `other`'s that this
    /// shop's card wins.
    pub open spec fn wins_against(&self, other: &Shop) -> nat {
        pair_tally(self@, other@, FightResult::Win)
    }

    /// The pairwise fights of this shop's cards against `other`'s that this
    /// shop's card loses.
    pub open spec fn losses_against(&self, other: &Shop) -> nat {
        pair_tally(self@, other@, FightResult::Loss)
    }

    /// The top price among the shop's cards, where it holds any.
    pub open spec fn spec_most_expensive(&self) -> u32
        recommends
            self@.len() > 0,
    {
        choose|price: u32| is_top_price(self@, price)
    }

    /// The outcome of this shop fighting `other`.
    pub open spec fn spec_fight_store(&self, other: &Shop) -> FightResult {
        tally_outcome(self.wins_against(other), self.losses_against(other))
    }

    /// The price of the most expensive card, or `EmptyCollection` for a shop
    /// without cards.
    pub fn most_expensive(&self) -> (result: Result<u32, ShopError>)
        ensures
            self@.len() == 0 <==> result == Err::<u32, ShopError>(ShopError::EmptyCollection),
            self@.len() > 0 <==> result is Ok,
            result is Ok ==> is_top_price(self@, result->Ok_0),
            result is Ok ==> result->Ok_0 == self.spec_most_expensive(),
    {
        let n: usize = self.cards.len();
        if n == 0 {
            return Err(ShopError::EmptyCollection);
        }
        let mut top: u32 = self.cards[0].price;
        let mut i: usize = 1;
        assert(self.cards@.take(1)[0].price == top);
        while i < n
            invariant
                n == self.cards@.len(),
                1 <= i <= n,
                is_top_price(self.cards@.take(i as int), top),
            decreases n - i,
        {
            let ghost seen = self.cards@.take(i as int);
            let ghost next = self.cards@.take(i + 1);
            let price: u32 = self.cards[i].price;
            proof {
                let k = choose|k: int| 0 <= k < seen.len() && #[trigger] seen[k].price == top;
                assert(next[k].price == top);
                assert(next[i as int].price == price);
                assert forall|j: int| 0 <= j < next.len() implies #[trigger] next[j].price <= (if price
                    > top {
                    price
                } else {
                    top
                }) by {
                    if j < i {
                        assert(seen[j].price <= top);
                    }
                }
            }
            if price > top {
                top = price;
            }
            i += 1;
        }
        proof {
            assert(self.cards@.take(n as int) =~= self@);
            lemma_top_price_unique(self@, top, self.spec_most_expensive());
        }
        Ok(top)
    }

    /// The damage of all the cards in the shop added up, which is 0 for a
    /// shop without cards. The sum has to fit in 32 bits.
    pub fn total_damage(&self) -> (total: u32)
        requires
            damage_sum(self@) <= u32::MAX,
        ensures
            total == damage_sum(self@),
            self@.len() == 0 ==> total == 0,
    {
        let n: usize = self.cards.len();
        let mut total: u32 = 0;
        let mut i: usize = 0;
        while i < n
            invariant
                n == self.cards@.len(),
                i <= n,
                total == damage_sum(self.cards@.take(i as int)),
                damage_sum(self.cards@) <= u32::MAX,
            decreases n - i,
        {
            proof {
                lemma_damage_sum_take(self.cards@, i + 1);
                assert(self.cards@.take(i + 1).drop_last() =~= self.cards@.take(i as int));
            }
            total += self.cards[i].damage;
            i += 1;
        }
        assert(self.cards@.take(n as int) =~= self@);
        total
    }

    /// The health of all the cards in the shop added up, which is 0 for a
    /// shop without cards. The sum has to fit in 32 bits.
    pub fn total_health(&self) -> (total: u32)
        requires
            health_sum(self@) <= u32::MAX,
        ensures
            total == health_sum(self@),
            self@.len() == 0 ==> total == 0,
    {
        let n: usize = self.cards.len();
        let mut total: u32 = 0;
        let mut i: usize = 0;
        while i < n
            invariant
                n == self.cards@.len(),
                i <= n,
                total == health_sum(self.cards@.take(i as int)),
                health_sum(self.cards@) <= u32::MAX,
            decreases n - i,
        {
            proof {
                lemma_health_sum_take(self.cards@, i + 1);
                assert(self.cards@.take(i + 1).drop_last() =~= self.cards@.take(i as int));
            }
            total += self.cards[i].health;
            i += 1;
        }
        assert(self.cards@.take(n as int) =~= self@);
        total
    }

    /// Lets every card of this shop fight every card of `other`, and compares
    /// how many of those fights this shop's card won with how many it lost.
    /// Ties and draws between cards count for neither side.
    pub fn fight_store(&self, other: &Shop) -> (result: FightResult)
        ensures
            result == self.spec_fight_store(other),
            result != FightResult::Draw,
    {
        let n: usize = self.cards.len();
        let m: usize = other.cards.len();
        let mut this_wins: u128 = 0;
        let mut other_wins: u128 = 0;
        let mut i: usize = 0;
        while i < n
            invariant
                n == self.cards@.len(),
                m == other.cards@.len(),
                i <= n,
                this_wins == pair_tally(self.cards@.take(i as int), other.cards@, FightResult::Win),
                other_wins == pair_tally(
                    self.cards@.take(i as int),
                    other.cards@,
                    FightResult::Loss,
                ),
            decreases n - i,
        {
            let this_card = &self.cards[i];
            let ghost before = self.cards@.take(i as int);
            let ghost won_before = this_wins;
            let ghost lost_before = other_wins;
            proof {
                lemma_pair_tally_partition(before, other.cards@);
                assert(i * m <= 0xffff_ffff_ffff_ffff * 0xffff_ffff_ffff_ffff) by (nonlinear_arith)
                    requires
                        0 <= i <= 0xffff_ffff_ffff_ffff,
                        0 <= m <= 0xffff_ffff_ffff_ffff,
                ;
            }
            let mut j: usize = 0;
            while j < m
                invariant
                    m == other.cards@.len(),
                    j <= m,
                    won_before + lost_before <= 0xffff_ffff_ffff_ffff * 0xffff_ffff_ffff_ffff,
                    this_wins == won_before + card_tally(
                        *this_card,
                        other.cards@.take(j as int),
                        FightResult::Win,
                    ),
                    other_wins == lost_before + card_tally(
                        *this_card,
                        other.cards@.take(j as int),
                        FightResult::Loss,
                    ),
                decreases m - j,
            {
                proof {
                    lemma_card_tally_partition(*this_card, other.cards@.take(j as int));
                    assert(other.cards@.take(j + 1).drop_last() =~= other.cards@.take(j as int));
                }
                match this_card.fight(&other.cards[j]) {
                    FightResult::Win => this_wins += 1,
                    FightResult::Loss => other_wins += 1,
                    _ => {},
                }
                j += 1;
            }
            proof {
                assert(other.cards@.take(m as int) =~= other.cards@);
                assert(self.cards@.take(i + 1).drop_last() =~= before);
            }
            i += 1;
        }
        assert(self.cards@.take(n as int) =~= self@);
        if this_wins < other_wins {
            FightResult::Loss
        } else if this_wins > other_wins {
            FightResult::Win
        } else {
            FightResult::Tie
        }
    }

    /// The shop as text: its top price, total damage and total health,
    /// separated by slashes, in a frame.
    pub open spec fn spec_to_string(&self) -> Seq<char>
        recommends
            self@.len() > 0,
    {
        "|Shop: "@ + decimal(self.spec_most_expensive() as nat) + "/"@ + decimal(
            damage_sum(self@),
        ) + "/"@ + decimal(health_sum(self@)) + "|"@
    }

    /// Renders the shop as `|Shop: top price/total damage/total health|`, or
    /// reports `EmptyCollection` for a shop without cards, which has no top
    /// price.
    pub fn to_string(&self) -> (result: Result<String, ShopError>)
        requires
            damage_sum(self@) <= u32::MAX,
            health_sum(self@) <= u32::MAX,
        ensures
            self@.len() == 0 <==> result == Err::<String, ShopError>(ShopError::EmptyCollection),
            self@.len() > 0 <==> result is Ok,
            result is Ok ==> (result->Ok_0)@ == self.spec_to_string(),
    {
        match self.most_expensive() {
            Err(e) => Err(e),
            Ok(top) => {
                let mut text = String::from_str("|Shop: ");
                text.append(decimal_string(top).as_str());
                text.append("/");
                text.append(decimal_string(self.total_damage()).as_str());
                text.append("/");
                text.append(decimal_string(self.total_health()).as_str());
                text.append("|");
                Ok(text)
            },
        }
    }

    /// What one shop wins against another, the other loses against it, and
    /// the other way round.
    pub proof fn lemma_tallies_swap(s1: &Shop, s2: &Shop)
        ensures
            s1.wins_against(s2) == s2.losses_against(s1),
            s1.losses_against(s2) == s2.wins_against(s1),
    {
        lemma_pair_tally_mirrored(s1@, s2@, FightResult::Win);
        lemma_pair_tally_mirrored(s1@, s2@, FightResult::Loss);
    }

    /// Two shops tell the same fight in mirrored terms: one wins exactly when
    /// the other loses, and a tie is a tie for both.
    pub proof fn lemma_fight_store_mirrored(s1: &Shop, s2: &Shop)
        ensures
            s2.spec_fight_store(s1) == s1.spec_fight_store(s2).mirrored(),
    {
        Self::lemma_tallies_swap(s1, s2);
    }
}

} // verus!
