//! Entity model for one catalog entry of an electronic book: identity
//! assignment, timestamp bookkeeping, and a lossless textual interchange
//! form with a proved round trip.

pub mod book;
pub mod codec;
pub mod json;

pub use book::clamp_seconds;
pub use book::current_timestamp;
pub use book::Book;
pub use book::BookView;
pub use codec::decode_book;
pub use codec::encode_book;
