//! Country rules for client addresses: which countries are let in, given where an address
//! was located.
use vstd::prelude::*;

verus! {

broadcast use vstd::string::group_string_axioms;

/// `s` is one of `list`.
pub open spec fn listed(list: Seq<String>, s: Seq<char>) -> bool {
    exists|i: int| 0 <= i < list.len() && list[i]@ == s
}

/// Whether `s` is one of `list`.
pub fn is_listed(list: &Vec<String>, s: &str) -> (r: bool)
    ensures
        r == listed(list@, s@),
{
    let key = s.to_string();
    let mut i: usize = 0;
    while i < list.len()
        invariant
            i <= list@.len(),
            key@ == s@,
            forall|j: int| 0 <= j < i ==> list@[j]@ != s@,
        decreases list@.len() - i,
    {
        if list[i] == key {
            return true;
        }
        i += 1;
    }
    false
}

/// The country lists of the geographic filter.
pub struct GeoIpPolicy {
    pub allowed_countries: Vec<String>,
    pub blocked_countries: Vec<String>,
}

/// Whether a client located in `country` (an ISO code, or unknown) is let in: an unknown
/// country is; a blocked one is not; when an allow list is given, only the countries on it
/// are; otherwise every country is.
pub open spec fn country_allowed(allowed: Seq<String>, blocked: Seq<String>, country: Option<Seq<char>>) -> bool {
    match country {
        None => true,
        Some(c) => if blocked.len() > 0 && listed(blocked, c) {
            false
        } else if allowed.len() > 0 {
            listed(allowed, c)
        } else {
            true
        },
    }
}

impl GeoIpPolicy {
    /// A filter with these lists.
    pub fn new(allowed_countries: Vec<String>, blocked_countries: Vec<String>) -> (r: GeoIpPolicy)
        ensures
            r.allowed_countries == allowed_countries,
            r.blocked_countries == blocked_countries,
    {
        GeoIpPolicy { allowed_countries, blocked_countries }
    }

    /// Whether a client located in `country` is let in; see `country_allowed`.
    pub fn is_allowed(&self, country: Option<&str>) -> (r: bool)
        ensures
            r == country_allowed(
                self.allowed_countries@,
                self.blocked_countries@,
                match country {
                    Some(c) => Some(c@),
                    None => None,
                },
            ),
    {
        match country {
            None => true,
            Some(c) => {
                if self.blocked_countries.len() > 0 && is_listed(&self.blocked_countries, c) {
                    return false;
                }
                if self.allowed_countries.len() > 0 {
                    return is_listed(&self.allowed_countries, c);
                }
                true
            },
        }
    }
}

/// Where an address was located.
#[derive(Debug, Clone)]
pub struct LocationInfo {
    pub country: Option<String>,
    pub city: Option<String>,
    pub continent: Option<String>,
}

/// The location found for an address: none unless a country or a city is known.
pub fn location_from_parts(country: Option<String>, city: Option<String>, continent: Option<String>) -> (r: Option<
    LocationInfo,
>)
    ensures
        (country is Some || city is Some) <==> r is Some,
        r matches Some(l) ==> l.country == country && l.city == city && l.continent == continent,
{
    if country.is_some() || city.is_some() {
        Some(LocationInfo { country, city, continent })
    } else {
        None
    }
}

} // verus!
