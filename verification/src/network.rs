//! The choices that a player of a remote game makes before it starts.
use vstd::prelude::*;

verus! {

/// Role in a game
#[derive(Debug, PartialEq, Eq, Structural, Clone, Copy)]
pub enum Roles {
    /// Client
    ///
    /// Plays First
    Client,
    /// Host of the game
    ///
    /// Plays Second
    Host,
}

/// AI type
#[derive(Debug, PartialEq, Eq, Structural, Clone, Copy)]
pub enum AIType {
    /// Random Player
    Random,
    /// Short sight
    Short,
    /// Long sight
    Long,
    /// Short sight, multithreaded
    ShortT,
    /// Long sight, multithreaded
    LongT,
}

} // verus!
