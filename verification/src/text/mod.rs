//! Text as sequences of characters: cutting, trimming, numbers and order.

pub mod chars;
pub mod number;
pub mod order;
pub mod search;
pub mod space;
pub mod split;
