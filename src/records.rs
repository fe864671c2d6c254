//! Payloads of journal records that the readers carry through unread.
use vstd::prelude::*;

verus! {

/// An element of a planet's atmosphere.
#[derive(Debug, Clone, Copy, PartialEq, Eq, Hash, Structural)]
pub enum AtmosphereElement {
    Water,
    Oxygen,
    CarbonDioxide,
    SulphurDioxide,
    Ammonia,
    Methane,
    Nitrogen,
    Hydrogen,
    Helium,
    Neon,
    Argon,
    Silicates,
    Iron,
}

/// A suit, as the journal names it (its symbol, such as
/// `utilitysuit_class1`).
#[derive(Debug, Clone, PartialEq)]
pub struct Suit {
    pub symbol: String,
}

/// The record written when a suit loadout is deleted.
#[derive(Debug, Clone, PartialEq)]
pub struct DeleteSuitLoadoutEvent {
    pub suit_id: u64,
    pub suit_name: Suit,
    pub suit_name_localized: String,
    pub loadout_id: u64,
    pub loadout_name: String,
}

} // verus!
