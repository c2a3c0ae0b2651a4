//! The fields by which records are filtered and sorted.

use crate::rm_api::entities::{
    texts, Character, CharacterView, Episode, EpisodeView, Location, LocationView,
};
use crate::rm_api::timestamp::{read_instant, rfc3339_instant};
use crate::sorting::{same_chars, SortKey, SortKeyView};
use crate::text::{chars_of, texts_of};
use vstd::prelude::*;

verus! {

/// The value of a key that may be absent.
pub open spec fn optional_key(key: Option<SortKey>) -> Option<SortKeyView> {
    match key {
        Some(k) => Some(k@),
        None => None,
    }
}

/// A record that can be filtered and sorted by fields that a query names.
pub trait Record: View + Sized {
    /// The text that a filter on `field` searches. A record has no text
    /// under a name that is not one of its filter fields: there the text is empty.
    spec fn filter_text(record: Self::V, field: Seq<char>) -> Seq<char>;

    /// The key that a sort on `field` goes by, or `None` where the record
    /// has no such key.
    spec fn sort_key(record: Self::V, field: Seq<char>) -> Option<SortKeyView>;

    /// The text that a filter on `field` searches.
    fn field_text(&self, field: &Vec<char>) -> (r: Vec<char>)
        ensures
            r@ == Self::filter_text(self@, field@),
    ;

    /// The key that a sort on `field` goes by.
    fn field_key(&self, field: &Vec<char>) -> (r: Option<SortKey>)
        ensures
            optional_key(r) == Self::sort_key(self@, field@),
    ;

    /// A copy of the record.
    fn duplicate(&self) -> (r: Self)
        ensures
            r@ == self@,
    ;
}

/// Tests whether `field` is the word `word`.
pub fn is_word(field: &Vec<char>, word: &str) -> (r: bool)
    ensures
        r == (field@ == word@),
{
    same_chars(field, &chars_of(word))
}

/// The characters of each string of `list`.
pub fn chars_of_each(list: &Vec<String>) -> (r: Vec<Vec<char>>)
    ensures
        texts_of(r@) == texts(list@),
{
    let mut r: Vec<Vec<char>> = Vec::new();
    let mut i: usize = 0;
    while i < list.len()
        invariant
            i <= list.len(),
            texts_of(r@) == texts(list@).take(i as int),
        decreases list.len() - i,
    {
        let ghost copied = r@;
        let t = chars_of(list[i].as_str());
        r.push(t);
        assert(texts_of(r@) =~= texts_of(copied).push(t@));
        assert(texts(list@).take(i + 1) =~= texts(list@).take(i as int).push(list@[i as int]@));
        i += 1;
    }
    assert(texts(list@).take(list.len() as int) == texts(list@));
    r
}

/// A text as a sort key.
pub fn text_key(s: &String) -> (r: Option<SortKey>)
    ensures
        optional_key(r) == Some(SortKeyView::Text(s@)),
{
    Some(SortKey::Text(chars_of(s.as_str())))
}

/// A list of texts as a sort key.
pub fn list_key(list: &Vec<String>) -> (r: Option<SortKey>)
    ensures
        optional_key(r) == Some(SortKeyView::TextList(texts(list@))),
{
    Some(SortKey::TextList(chars_of_each(list)))
}

/// The sort key for the point in time that was read from a timestamp:
/// that point, or no key where the timestamp named none.
pub open spec fn instant_key(instant: Option<(i64, u32)>) -> Option<SortKeyView> {
    match instant {
        Some((seconds, nanos)) => Some(SortKeyView::Instant(seconds, nanos)),
        None => None,
    }
}

/// The sort key for the point in time that was read from a timestamp.
pub fn key_of_instant(instant: Option<(i64, u32)>) -> (r: Option<SortKey>)
    ensures
        optional_key(r) == instant_key(instant),
{
    match instant {
        Some((seconds, nanos)) => Some(SortKey::Instant(seconds, nanos)),
        None => None,
    }
}

impl Record for Character {
    /// Characters are filtered by name, status, species, type and gender.
    open spec fn filter_text(record: CharacterView, field: Seq<char>) -> Seq<char> {
        if field == "name"@ {
            record.name
        } else if field == "status"@ {
            record.status
        } else if field == "species"@ {
            record.species
        } else if field == "type"@ {
            record._type
        } else if field == "gender"@ {
            record.gender
        } else {
            Seq::empty()
        }
    }

    /// Characters are sorted by status, species or type, and by name under
    /// any other field.
    open spec fn sort_key(record: CharacterView, field: Seq<char>) -> Option<SortKeyView> {
        if field == "status"@ {
            Some(SortKeyView::Text(record.status))
        } else if field == "species"@ {
            Some(SortKeyView::Text(record.species))
        } else if field == "type"@ {
            Some(SortKeyView::Text(record._type))
        } else {
            Some(SortKeyView::Text(record.name))
        }
    }

    fn field_text(&self, field: &Vec<char>) -> (r: Vec<char>) {
        if is_word(field, "name") {
            chars_of(self.name.as_str())
        } else if is_word(field, "status") {
            chars_of(self.status.as_str())
        } else if is_word(field, "species") {
            chars_of(self.species.as_str())
        } else if is_word(field, "type") {
            chars_of(self._type.as_str())
        } else if is_word(field, "gender") {
            chars_of(self.gender.as_str())
        } else {
            Vec::new()
        }
    }

    fn field_key(&self, field: &Vec<char>) -> (r: Option<SortKey>) {
        if is_word(field, "status") {
            text_key(&self.status)
        } else if is_word(field, "species") {
            text_key(&self.species)
        } else if is_word(field, "type") {
            text_key(&self._type)
        } else {
            text_key(&self.name)
        }
    }

    fn duplicate(&self) -> (r: Self) {
        self.clone()
    }
}

impl Record for Episode {
    /// Episodes are filtered by name, air date and episode code.
    open spec fn filter_text(record: EpisodeView, field: Seq<char>) -> Seq<char> {
        if field == "name"@ {
            record.name
        } else if field == "air_date"@ {
            record.air_date
        } else if field == "episode"@ {
            record.episode
        } else {
            Seq::empty()
        }
    }

    /// Episodes are sorted by name, id, episode code or characters. Under
    /// the air date, and under any other field, they have no key to differ by.
    open spec fn sort_key(record: EpisodeView, field: Seq<char>) -> Option<SortKeyView> {
        if field == "name"@ {
            Some(SortKeyView::Text(record.name))
        } else if field == "id"@ {
            Some(SortKeyView::Number(record.id))
        } else if field == "episode"@ {
            Some(SortKeyView::Text(record.episode))
        } else if field == "characters"@ {
            Some(SortKeyView::TextList(record.characters))
        } else {
            Some(SortKeyView::Nothing)
        }
    }

    fn field_text(&self, field: &Vec<char>) -> (r: Vec<char>) {
        if is_word(field, "name") {
            chars_of(self.name.as_str())
        } else if is_word(field, "air_date") {
            chars_of(self.air_date.as_str())
        } else if is_word(field, "episode") {
            chars_of(self.episode.as_str())
        } else {
            Vec::new()
        }
    }

    fn field_key(&self, field: &Vec<char>) -> (r: Option<SortKey>) {
        if is_word(field, "name") {
            text_key(&self.name)
        } else if is_word(field, "id") {
            Some(SortKey::Number(self.id))
        } else if is_word(field, "episode") {
            text_key(&self.episode)
        } else if is_word(field, "characters") {
            list_key(&self.characters)
        } else {
            Some(SortKey::Nothing)
        }
    }

    fn duplicate(&self) -> (r: Self) {
        self.clone()
    }
}

impl Record for Location {
    /// Locations are filtered by name, type and dimension.
    open spec fn filter_text(record: LocationView, field: Seq<char>) -> Seq<char> {
        if field == "name"@ {
            record.name
        } else if field == "type"@ {
            record._type
        } else if field == "dimension"@ {
            record.dimension
        } else {
            Seq::empty()
        }
    }

    /// Locations are sorted by type, dimension, residents, id or the time
    /// they were created at, and by name under any other field. A location
    /// whose timestamp names no point in time has no key under `created`.
    open spec fn sort_key(record: LocationView, field: Seq<char>) -> Option<SortKeyView> {
        if field == "type"@ {
            Some(SortKeyView::Text(record._type))
        } else if field == "dimension"@ {
            Some(SortKeyView::Text(record.dimension))
        } else if field == "residents"@ {
            Some(SortKeyView::TextList(record.residents))
        } else if field == "id"@ {
            Some(SortKeyView::Number(record.id))
        } else if field == "created"@ {
            instant_key(rfc3339_instant(record.created))
        } else {
            Some(SortKeyView::Text(record.name))
        }
    }

    fn field_text(&self, field: &Vec<char>) -> (r: Vec<char>) {
        if is_word(field, "name") {
            chars_of(self.name.as_str())
        } else if is_word(field, "type") {
            chars_of(self._type.as_str())
        } else if is_word(field, "dimension") {
            chars_of(self.dimension.as_str())
        } else {
            Vec::new()
        }
    }

    fn field_key(&self, field: &Vec<char>) -> (r: Option<SortKey>) {
        if is_word(field, "type") {
            text_key(&self._type)
        } else if is_word(field, "dimension") {
            text_key(&self.dimension)
        } else if is_word(field, "residents") {
            list_key(&self.residents)
        } else if is_word(field, "id") {
            Some(SortKey::Number(self.id))
        } else if is_word(field, "created") {
            key_of_instant(read_instant(self.created.as_str()))
        } else {
            text_key(&self.name)
        }
    }

    fn duplicate(&self) -> (r: Self) {
        self.clone()
    }
}

} // verus!
