pub mod card;
pub mod deck;
pub mod error;
pub mod game;
pub mod hand;
pub mod round;
pub mod trick;

pub use card::{Card, Rank, Suit};
pub use deck::Deck;
pub use error::Error;
pub use game::{Game, PlayerInfo};
pub use hand::{Call, Hand};
pub use round::{Round, RoundId};
pub use trick::{Trick, Turn};
