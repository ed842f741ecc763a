use crate::decimal::{decimal, decimal_string};
use crate::fight_result::FightResult;
use vstd::prelude::*;

verus! {

/// A card with a price and two combat stats.
#[derive(Clone, Copy, Debug)]
pub struct Card {
    pub price: u32,
    pub health: u32,
    pub damage: u32,
}

impl Card {
    /// Whether this card's damage is enough to take all of `other`'s health.
    pub open spec fn is_lethal_to(self, other: Card) -> bool {
        self.damage >= other.health
    }

    /// The outcome of this card fighting `other`.
    pub open spec fn spec_fight(self, other: Card) -> FightResult {
        if self.is_lethal_to(other) && other.is_lethal_to(self) {
            FightResult::Tie
        } else if self.is_lethal_to(other) {
            FightResult::Win
        } else if other.is_lethal_to(self) {
            FightResult::Loss
        } else {
            FightResult::Draw
        }
    }

    /// Fights `other` and reports the outcome from this card's side.
    pub fn fight(&self, other: &Card) -> (result: FightResult)
        ensures
            result == self.spec_fight(*other),
    {
        match (self.damage >= other.health, other.damage >= self.health) {
            (true, true) => FightResult::Tie,
            (true, false) => FightResult::Win,
            (false, true) => FightResult::Loss,
            (false, false) => FightResult::Draw,
        }
    }

    /// The card as text: its damage, a slash and its health, in a frame. The
    /// price is not shown.
    pub open spec fn spec_to_string(self) -> Seq<char> {
        "|Card: "@ + decimal(self.damage as nat) + "/"@ + decimal(self.health as nat) + "|"@
    }

    /// Renders the card as `|Card: damage/health|`.
    pub fn to_string(&self) -> (text: String)
        ensures
            text@ == self.spec_to_string(),
    {
        let mut text = String::from_str("|Card: ");
        text.append(decimal_string(self.damage).as_str());
        text.append("/");
        text.append(decimal_string(self.health).as_str());
        text.append("|");
        text
    }

    /// The line that announces how this card's fight against `other` ended.
    pub open spec fn spec_outcome_line(self, other: Card) -> Seq<char> {
        match self.spec_fight(other) {
            FightResult::Win => self.spec_to_string() + " wins!"@,
            FightResult::Loss => other.spec_to_string() + " wins!"@,
            FightResult::Tie => "It's a tie!"@,
            FightResult::Draw => "It's a draw!"@,
        }
    }

    /// The play-by-play of this card's fight against `other`: an empty line,
    /// the matchup, a row of daggers, the outcome and an empty line, each
    /// ended by a line feed.
    pub open spec fn spec_fight_report(self, other: Card) -> Seq<char> {
        "\n"@ + self.spec_to_string() + " vs "@ + other.spec_to_string() + "\n"@
            + "\u{1F5E1}\u{FE0F} \u{1F5E1}\u{FE0F} \u{1F5E1}\u{FE0F}\n"@
            + self.spec_outcome_line(other) + "\n\n"@
    }

    /// Fights `other` and also gives the play-by-play of the fight as text,
    /// ready to be printed.
    pub fn fight_report(&self, other: &Card) -> (report: (FightResult, String))
        ensures
            report.0 == self.spec_fight(*other),
            report.1@ == self.spec_fight_report(*other),
    {
        let mut text = String::from_str("\n");
        text.append(self.to_string().as_str());
        text.append(" vs ");
        text.append(other.to_string().as_str());
        text.append("\n");
        text.append("\u{1F5E1}\u{FE0F} \u{1F5E1}\u{FE0F} \u{1F5E1}\u{FE0F}\n");
        let fight_result = self.fight(other);
        match fight_result {
            FightResult::Win => {
                text.append(self.to_string().as_str());
                text.append(" wins!");
            },
            FightResult::Loss => {
                text.append(other.to_string().as_str());
                text.append(" wins!");
            },
            FightResult::Tie => text.append("It's a tie!"),
            FightResult::Draw => text.append("It's a draw!"),
        }
        text.append("\n\n");
        assert(text@ =~= self.spec_fight_report(*other));
        (fight_result, text)
    }

    /// Swapping the two fighters mirrors the outcome: a win becomes a loss and
    /// a loss a win, while a tie stays a tie and a draw stays a draw.
    pub proof fn lemma_fight_mirrored(a: Card, b: Card)
        ensures
            b.spec_fight(a) == a.spec_fight(b).mirrored(),
    {
    }

    /// A card fighting itself ties when its damage reaches its own health,
    /// and draws otherwise.
    pub proof fn lemma_fight_self(a: Card)
        ensures
            a.spec_fight(a) == if a.damage >= a.health {
                FightResult::Tie
            } else {
                FightResult::Draw
            },
    {
    }
}

} // verus!
