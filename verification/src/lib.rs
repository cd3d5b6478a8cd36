//! A word-guessing filter: a five-letter pattern with optional wildcard
//! positions is matched against candidate words under a set of excluded
//! letters and a set of required-included letters.

pub mod matcher;
pub mod render;
pub mod word;

pub use matcher::Excluded;
pub use matcher::Included;
pub use matcher::WordsResult;
pub use word::Character;
pub use word::Word;
pub use word::WordError;
