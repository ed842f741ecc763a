//! A small card-battle model: cards with combat stats fight pairwise, and
//! shops of cards aggregate stats and fight each other by tallying the
//! pairwise outcomes.

pub mod card;
pub mod decimal;
pub mod fight_result;
pub mod shop;
pub mod tally;

pub use fight_result::FightResult;
