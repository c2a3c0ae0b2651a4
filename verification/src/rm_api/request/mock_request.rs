//! A catalogue that answers from memory.

use crate::error::QueryError;
use crate::query_language::operation::{OperationEnum, Root};
use crate::query_language::operation_list::{OperationList, OperationListEvaluator};
use crate::rm_api::entities::{
    Character, CharacterPage, CharacterView, EpisodePage, EpisodeView, Info, InfoView,
    LocationPage, LocationView, Page, PageView,
};
use crate::rm_api::request::builder::{CharactersRequest, RequestURLBuilder};
use crate::rm_api::request::requested_root;
use crate::rm_api::response::{RMResponse, RMResponseEnum, RMResponseView};
use crate::rm_api::Rickuest;
use crate::text::{chars_of, string_of};
use vstd::prelude::*;

verus! {

/// A catalogue that holds one character and answers every request for
/// characters with it.
#[derive(Debug, Clone, Copy, PartialEq, Eq, Structural)]
pub struct MockRequest;

/// The character that the catalogue in memory holds.
pub open spec fn mock_character() -> CharacterView {
    CharacterView {
        id: 1,
        name: "Rick Sanchez"@,
        status: "Alive"@,
        species: "Human"@,
        _type: "Genius"@,
        gender: Seq::empty(),
        image: Seq::empty(),
        episode: Seq::empty(),
        url: Seq::empty(),
        created: Seq::empty(),
    }
}

/// The page with which the catalogue in memory answers a request for
/// characters.
pub open spec fn mock_characters() -> PageView<CharacterView> {
    PageView {
        info: InfoView { count: 1, pages: 1, next: None, prev: None },
        results: seq![mock_character()],
    }
}

/// A page without records.
pub open spec fn empty_page<V>() -> PageView<V> {
    PageView {
        info: InfoView { count: 0, pages: 0, next: None, prev: None },
        results: Seq::empty(),
    }
}

impl Rickuest for MockRequest {
    /// The one page of characters, whatever the address.
    fn get_characters(self, url: String) -> (r: Result<CharacterPage, QueryError>)
        ensures
            r is Ok,
            r->Ok_0@ == mock_characters(),
    {
        let mut character = Character::default();
        character.id = 1;
        character.name = string_of(&chars_of("Rick Sanchez"));
        character.status = string_of(&chars_of("Alive"));
        character.species = string_of(&chars_of("Human"));
        character._type = string_of(&chars_of("Genius"));
        let mut results: Vec<Character> = Vec::new();
        results.push(character);
        let page = Page { info: Info { count: 1, pages: 1, next: None, prev: None }, results };
        assert(page@.results =~= seq![mock_character()]);
        Ok(page)
    }

    /// A page without episodes, whatever the address.
    fn get_episodes(self, url: String) -> (r: Result<EpisodePage, QueryError>)
        ensures
            r is Ok,
            r->Ok_0@ == empty_page::<EpisodeView>(),
    {
        let page: EpisodePage = Page::default();
        assert(page@.results =~= Seq::empty());
        Ok(page)
    }

    /// A page without locations, whatever the address.
    fn get_locations(self, url: String) -> (r: Result<LocationPage, QueryError>)
        ensures
            r is Ok,
            r->Ok_0@ == empty_page::<LocationView>(),
    {
        let page: LocationPage = Page::default();
        assert(page@.results =~= Seq::empty());
        Ok(page)
    }
}

impl MockRequest {
    /// Answers the request that the operations shape: with the one page of
    /// characters where they select characters, and with a failure where they
    /// select another resource or none.
    pub fn evaluate_op(&self, operation_list: &OperationList) -> (r: Result<RMResponse, QueryError>)
        ensures
            match r {
                Ok(response) => requested_root(operation_list@) == Some(Root::CHARACTERS)
                    && response@ == RMResponseView::Characters(mock_characters()),
                Err(error) => requested_root(operation_list@) != Some(Root::CHARACTERS) && error
                    == QueryError::UnsupportedRoot,
            },
    {
        if operation_list.0.len() == 0 {
            return Err(QueryError::UnsupportedRoot);
        }
        match &operation_list.0[0].0 {
            OperationEnum::Root(Root::CHARACTERS) => {
                let mut builder = CharactersRequest::new("https://rickandmortyapi.com");
                let mut i: usize = 0;
                while i < operation_list.0.len()
                    invariant
                        i <= operation_list.0.len(),
                    decreases operation_list.0.len() - i,
                {
                    match &operation_list.0[i].0 {
                        OperationEnum::Name(name) => {
                            builder.name(name.to_text().as_str());
                        },
                        _ => {},
                    }
                    i += 1;
                }
                let url = builder.build_url();
                match MockRequest.get_characters(url) {
                    Ok(page) => Ok(RMResponse(RMResponseEnum::Characters(page))),
                    Err(error) => Err(error),
                }
            },
            _ => Err(QueryError::UnsupportedRoot),
        }
    }
}

impl OperationListEvaluator for MockRequest {
    fn evaluate_op(&self, operation_list: &OperationList) -> (r: Result<RMResponse, QueryError>)
        ensures
            match r {
                Ok(response) => requested_root(operation_list@) == Some(Root::CHARACTERS)
                    && response@ == RMResponseView::Characters(mock_characters()),
                Err(error) => requested_root(operation_list@) != Some(Root::CHARACTERS) && error
                    == QueryError::UnsupportedRoot,
            },
    {
        MockRequest::evaluate_op(self, operation_list)
    }
}

} // verus!
