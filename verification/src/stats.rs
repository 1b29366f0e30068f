use vstd::prelude::*;

verus! {

/// The four character attributes. Effective stats of an entity are the base
/// stats plus the sum of all `Add` modifiers of the equipped items.
#[derive(Debug, Copy, Clone)]
pub struct Stats {
    pub vitality: i32,
    pub strength: i32,
    pub speed: i32,
    pub defense: i32,
}

/// A single attribute delta, carried by an item modifier.
#[derive(Debug, Copy, Clone, PartialEq, Eq, Structural)]
pub enum Stat {
    Vitality(i32),
    Strength(i32),
    Speed(i32),
    Defense(i32),
}

} // verus!
