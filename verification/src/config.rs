//! What the service is configured with.

use crate::text::{parse_u64, spec_parse_u64};
use vstd::prelude::*;

verus! {

/// The number that a setting gives: the number that its value spells, or
/// the default where the setting is absent or spells none.
pub open spec fn spec_env_u64(value: Option<Seq<char>>, d: u64) -> u64 {
    match value {
        Some(text) => match spec_parse_u64(text) {
            Some(n) => n,
            None => d,
        },
        None => d,
    }
}

/// The number that a setting gives, with `d` as the default.
pub fn env_u64(value: Option<&str>, d: u64) -> (r: u64)
    ensures
        r == spec_env_u64(
            match value {
                Some(text) => Some(text@),
                None => None,
            },
            d,
        ),
{
    match value {
        Some(text) => match parse_u64(text) {
            Some(n) => n,
            None => d,
        },
        None => d,
    }
}

/// The configuration of the fetch cycles: where to fetch from, the key to
/// present, and how many seconds each source's cycle rests.
#[derive(Clone, Debug, PartialEq, Eq)]
pub struct AppState {
    pub nasa_url: String,
    pub nasa_key: String,
    pub fallback_url: String,
    pub every_osdr: u64,
    pub every_iss: u64,
    pub every_apod: u64,
    pub every_neo: u64,
    pub every_donki: u64,
    pub every_spacex: u64,
}

} // verus!
