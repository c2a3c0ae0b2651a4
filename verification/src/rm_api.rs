//! The catalogue: its records, the requests made of it and its answers.

pub mod entities;
pub mod fields;
pub mod laws;
pub mod request;
pub mod response;
pub mod timestamp;

use crate::error::QueryError;
use crate::rm_api::entities::{CharacterPage, EpisodePage, LocationPage};
use vstd::prelude::*;

verus! {

/// What reads a page of the catalogue at an address.
pub trait Rickuest: Sized {
    fn get_characters(self, url: String) -> Result<CharacterPage, QueryError>;

    fn get_episodes(self, url: String) -> Result<EpisodePage, QueryError>;

    fn get_locations(self, url: String) -> Result<LocationPage, QueryError>;
}

} // verus!
