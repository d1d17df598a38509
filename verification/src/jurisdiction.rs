//! Taxing jurisdictions: a federal authority of a country, or one of its
//! states or provinces. Jurisdictions are part of every schedule lookup key.

use vstd::prelude::*;

verus! {

/// A country with a federal taxing authority.
#[derive(Clone, Copy, Debug, Eq, PartialEq, Hash, Structural)]
pub enum Country {
    USA,
    Canada,
}

/// A US state with its own taxing authority.
#[derive(Clone, Copy, Debug, Eq, PartialEq, Hash, Structural)]
pub enum USState {
    California,
    NewYork,
}

/// A Canadian province with its own taxing authority.
#[derive(Clone, Copy, Debug, Eq, PartialEq, Hash, Structural)]
pub enum CanadianProvince {
    Ontario,
    BritishColumbia,
}

/// The scope of a taxing authority.
#[derive(Clone, Copy, Debug, Eq, PartialEq, Hash, Structural)]
pub enum Jurisdiction {
    Federal(Country),
    USState(USState),
    CanadianProvince(CanadianProvince),
}

/// The country a jurisdiction belongs to.
pub open spec fn spec_country_of(j: Jurisdiction) -> Country {
    match j {
        Jurisdiction::Federal(country) => country,
        Jurisdiction::USState(_) => Country::USA,
        Jurisdiction::CanadianProvince(_) => Country::Canada,
    }
}

impl Jurisdiction {
    /// Returns the country this jurisdiction belongs to.
    pub fn get_country(&self) -> (c: Country)
        ensures
            c == spec_country_of(*self),
    {
        match self {
            Jurisdiction::Federal(country) => *country,
            Jurisdiction::USState(_) => Country::USA,
            Jurisdiction::CanadianProvince(_) => Country::Canada,
        }
    }
}

} // verus!
