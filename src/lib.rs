//! The "two, four, eighteen" dice game: the rules that decide which dice are
//! kept each round and how a finished game scores, together with the small
//! state machines that turn sensor edges and round outcomes into display work.
pub mod animation;
pub mod dice;
pub mod die;
pub mod layout;
pub mod number_of_dice;
pub mod random;
pub mod round;
pub mod seed_source;
pub mod two_four_eighteen;
