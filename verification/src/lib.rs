//! An in-memory model of hierarchical "cards": note/task units that track a
//! parent link, an ordered duplicate-free list of child identities, and named
//! buckets for organizing children. Every operation preserves the card's
//! local invariants; global tree consistency is the owning context's concern.

pub mod card;
pub mod laws;

pub use card::Card;
pub use card::CardView;
