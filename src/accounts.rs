//! Plain data of the booking platform that the venues are enriched for:
//! its deployment environments, performer categories and their ticket price
//! ranges, and the states of bookings and reviews.
use vstd::prelude::*;
use crate::text::{lower_of, lowercase};

verus! {

broadcast use vstd::string::group_string_axioms;

/// A deployment environment.
#[derive(Clone, Copy, Debug, PartialEq, Eq, Structural)]
pub enum Environment {
    Stage,
    Production,
}

/// The name of an environment.
pub open spec fn environment_name(e: Environment) -> Seq<char> {
    match e {
        Environment::Stage => "stage"@,
        Environment::Production => "production"@,
    }
}

/// The environment that a name gives, in any case.
pub open spec fn environment_named(s: Seq<char>) -> Option<Environment> {
    if lower_of(s) == "stage"@ {
        Some(Environment::Stage)
    } else if lower_of(s) == "production"@ {
        Some(Environment::Production)
    } else {
        None
    }
}

impl Environment {
    /// The environment's name.
    pub fn as_str(&self) -> (r: &'static str)
        ensures
            r@ == environment_name(*self),
    {
        match self {
            Environment::Stage => "stage",
            Environment::Production => "production",
        }
    }

    /// The environment that the lower-case name `l` gives.
    pub fn from_lowercase(l: &str) -> (r: Option<Environment>)
        ensures
            r == (if l@ == "stage"@ {
                Some(Environment::Stage)
            } else if l@ == "production"@ {
                Some(Environment::Production)
            } else {
                None
            }),
    {
        let l = String::from_str(l);
        if l == String::from_str("stage") {
            Some(Environment::Stage)
        } else if l == String::from_str("production") {
            Some(Environment::Production)
        } else {
            None
        }
    }

    /// The environment that `s` names, in any case.
    pub fn parse(s: &str) -> (r: Option<Environment>)
        ensures
            r == environment_named(s@),
    {
        let l = lowercase(s);
        Environment::from_lowercase(l.as_str())
    }
}

/// A range of ticket prices, in cents.
#[derive(Clone, Copy, Debug, PartialEq, Eq, Structural)]
pub struct TicketRange {
    pub min: u64,
    pub max: u64,
}

/// How established a performer is.
#[derive(Clone, Copy, Debug, PartialEq, Eq, Structural)]
pub enum PerformerCategory {
    Undiscovered,
    Emerging,
    HometownHero,
    Mainstream,
    Legendary,
}

impl PerformerCategory {
    /// The ticket price range of a category.
    pub fn ticket_price_range(&self) -> (r: TicketRange)
        ensures
            r == (match *self {
                PerformerCategory::Undiscovered => TicketRange { min: 0, max: 1000 },
                PerformerCategory::Emerging => TicketRange { min: 1000, max: 2000 },
                PerformerCategory::HometownHero => TicketRange { min: 2000, max: 4000 },
                PerformerCategory::Mainstream => TicketRange { min: 4000, max: 7500 },
                PerformerCategory::Legendary => TicketRange { min: 7500, max: 100000 },
            }),
            r.min < r.max,
    {
        match self {
            PerformerCategory::Undiscovered => TicketRange { min: 0, max: 1000 },
            PerformerCategory::Emerging => TicketRange { min: 1000, max: 2000 },
            PerformerCategory::HometownHero => TicketRange { min: 2000, max: 4000 },
            PerformerCategory::Mainstream => TicketRange { min: 4000, max: 7500 },
            PerformerCategory::Legendary => TicketRange { min: 7500, max: 100000 },
        }
    }
}

impl Default for PerformerCategory {
    fn default() -> (r: PerformerCategory)
        ensures
            r == PerformerCategory::Undiscovered,
    {
        PerformerCategory::Undiscovered
    }
}

/// Where a booking stands.
#[derive(Clone, Copy, Debug, PartialEq, Eq, Structural)]
pub enum BookingStatus {
    Confirmed,
    Pending,
    Canceled,
}

impl Default for BookingStatus {
    fn default() -> (r: BookingStatus)
        ensures
            r == BookingStatus::Confirmed,
    {
        BookingStatus::Confirmed
    }
}

/// Who a review is about.
#[derive(Clone, Copy, Debug, PartialEq, Eq, Structural)]
pub enum ReviewType {
    Performer,
    Booker,
}

} // verus!
