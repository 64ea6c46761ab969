//! Movement documents: why stock moves.

use crate::date::Date;
use vstd::prelude::*;

verus! {

/// Why stock moves.
#[derive(Clone, Copy, Debug, PartialEq, Eq, Structural)]
pub enum MoveType {
    Receipt,
    Issue,
    Transfer,
    Adjustment,
}

pub open spec fn move_type_text(t: MoveType) -> Seq<char> {
    match t {
        MoveType::Receipt => "receipt"@,
        MoveType::Issue => "issue"@,
        MoveType::Transfer => "transfer"@,
        MoveType::Adjustment => "adjustment"@,
    }
}

impl MoveType {
    pub fn as_str(self) -> (r: &'static str)
        ensures
            r@ == move_type_text(self),
    {
        match self {
            MoveType::Receipt => "receipt",
            MoveType::Issue => "issue",
            MoveType::Transfer => "transfer",
            MoveType::Adjustment => "adjustment",
        }
    }
}

/// A movement document.
#[derive(Debug)]
pub struct MoveDoc {
    pub id: u128,
    pub number: Option<String>,
    pub move_type: MoveType,
    pub entry_date: Date,
    /// The document that generated the movement, where another one did.
    pub source: Option<String>,
}

} // verus!
