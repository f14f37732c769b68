//! The target record whose recognized fields the subtree consumer fills.

use vstd::prelude::*;
use crate::events::FieldKind;

verus! {

/// The externally owned track-point record, reduced to the four optional
/// fields this consumer populates. Each field holds the raw text of the
/// corresponding child element, already checked against the numeric grammar
/// (`crate::number::valid_number`); turning that text into a machine number is
/// the caller's concern.
pub struct Waypoint {
    pub power: Option<String>,
    pub temperature: Option<String>,
    pub cadence: Option<String>,
    pub heart_rate: Option<String>,
}

/// The mathematical value of a record: each field as a character sequence.
pub struct WaypointV {
    pub power: Option<Seq<char>>,
    pub temperature: Option<Seq<char>>,
    pub cadence: Option<Seq<char>>,
    pub heart_rate: Option<Seq<char>>,
}

impl View for Waypoint {
    type V = WaypointV;

    open spec fn view(&self) -> WaypointV {
        WaypointV {
            power: match self.power {
                Some(s) => Some(s@),
                None => None,
            },
            temperature: match self.temperature {
                Some(s) => Some(s@),
                None => None,
            },
            cadence: match self.cadence {
                Some(s) => Some(s@),
                None => None,
            },
            heart_rate: match self.heart_rate {
                Some(s) => Some(s@),
                None => None,
            },
        }
    }
}

/// A record with every recognized field unset.
pub open spec fn empty_record() -> WaypointV {
    WaypointV { power: None, temperature: None, cadence: None, heart_rate: None }
}

/// The record `w` with field `f` set to `value` and all other fields kept.
pub open spec fn set_field_spec(w: WaypointV, f: FieldKind, value: Seq<char>) -> WaypointV {
    match f {
        FieldKind::Power => WaypointV { power: Some(value), ..w },
        FieldKind::Temperature => WaypointV { temperature: Some(value), ..w },
        FieldKind::Cadence => WaypointV { cadence: Some(value), ..w },
        FieldKind::HeartRate => WaypointV { heart_rate: Some(value), ..w },
    }
}

impl Waypoint {
    /// A fresh record with all four fields unset.
    pub fn new() -> (w: Waypoint)
        ensures
            w@ == empty_record(),
    {
        Waypoint { power: None, temperature: None, cadence: None, heart_rate: None }
    }

    /// Stores a field's raw text, by side effect, leaving the other fields.
    pub fn set_field(&mut self, f: FieldKind, value: String)
        ensures
            final(self)@ == set_field_spec(old(self)@, f, value@),
    {
        match f {
            FieldKind::Power => self.power = Some(value),
            FieldKind::Temperature => self.temperature = Some(value),
            FieldKind::Cadence => self.cadence = Some(value),
            FieldKind::HeartRate => self.heart_rate = Some(value),
        }
    }
}

} // verus!
