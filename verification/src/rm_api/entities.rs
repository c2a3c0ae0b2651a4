//! The records of the catalogue and the page they come in.

use vstd::prelude::*;

verus! {

/// The texts that a vector of strings holds.
pub open spec fn texts(list: Seq<String>) -> Seq<Seq<char>> {
    list.map_values(|s: String| s@)
}

/// A copy of a vector of strings.
pub fn clone_strings(list: &Vec<String>) -> (r: Vec<String>)
    ensures
        texts(r@) == texts(list@),
{
    let mut r: Vec<String> = Vec::new();
    let mut i: usize = 0;
    while i < list.len()
        invariant
            i <= list.len(),
            texts(r@) == texts(list@).take(i as int),
        decreases list.len() - i,
    {
        let ghost copied = r@;
        let s = list[i].clone();
        r.push(s);
        assert(texts(r@) =~= texts(copied).push(s@));
        assert(texts(list@).take(i + 1) =~= texts(list@).take(i as int).push(list@[i as int]@));
        i += 1;
    }
    assert(texts(list@).take(list.len() as int) == texts(list@));
    r
}

/// A copy of a string that may be absent.
pub fn clone_optional(s: &Option<String>) -> (r: Option<String>)
    ensures
        optional_text(r) == optional_text(*s),
{
    match s {
        Some(t) => Some(t.clone()),
        None => None,
    }
}

/// The text of a string that may be absent.
pub open spec fn optional_text(s: Option<String>) -> Option<Seq<char>> {
    match s {
        Some(t) => Some(t@),
        None => None,
    }
}

/// What the server says of the whole result set that a page belongs to.
#[derive(Debug, PartialEq)]
pub struct Info {
    pub count: u32,
    pub pages: u32,
    pub next: Option<String>,
    pub prev: Option<String>,
}

/// The mathematical value of an `Info`.
pub struct InfoView {
    pub count: u32,
    pub pages: u32,
    pub next: Option<Seq<char>>,
    pub prev: Option<Seq<char>>,
}

impl View for Info {
    type V = InfoView;

    open spec fn view(&self) -> InfoView {
        InfoView {
            count: self.count,
            pages: self.pages,
            next: optional_text(self.next),
            prev: optional_text(self.prev),
        }
    }
}

impl Clone for Info {
    fn clone(&self) -> (r: Self)
        ensures
            r@ == self@,
    {
        Info {
            count: self.count,
            pages: self.pages,
            next: clone_optional(&self.next),
            prev: clone_optional(&self.prev),
        }
    }
}

impl Default for Info {
    fn default() -> (r: Self)
        ensures
            r@ == (InfoView { count: 0, pages: 0, next: None, prev: None }),
    {
        Info { count: 0, pages: 0, next: None, prev: None }
    }
}

/// One page of records, with what the server says of the whole result set.
#[derive(Debug, PartialEq)]
pub struct Page<T> {
    pub info: Info,
    pub results: Vec<T>,
}

/// The mathematical value of a `Page`.
pub struct PageView<V> {
    pub info: InfoView,
    pub results: Seq<V>,
}

/// The values of a sequence of records.
pub open spec fn record_views<T: View>(records: Seq<T>) -> Seq<T::V> {
    records.map_values(|t: T| t@)
}

impl<T: View> View for Page<T> {
    type V = PageView<T::V>;

    open spec fn view(&self) -> PageView<T::V> {
        PageView { info: self.info@, results: record_views(self.results@) }
    }
}

impl<T> Default for Page<T> {
    fn default() -> (r: Self)
        ensures
            r.info@ == (InfoView { count: 0, pages: 0, next: None, prev: None }),
            r.results@ == Seq::<T>::empty(),
    {
        Page { info: Info::default(), results: Vec::new() }
    }
}

/// A place.
#[derive(Debug, PartialEq)]
pub struct Location {
    pub id: u32,
    pub name: String,
    pub _type: String,
    pub dimension: String,
    pub residents: Vec<String>,
    pub url: String,
    pub created: String,
}

/// The mathematical value of a `Location`.
pub struct LocationView {
    pub id: u32,
    pub name: Seq<char>,
    pub _type: Seq<char>,
    pub dimension: Seq<char>,
    pub residents: Seq<Seq<char>>,
    pub url: Seq<char>,
    pub created: Seq<char>,
}

impl View for Location {
    type V = LocationView;

    open spec fn view(&self) -> LocationView {
        LocationView {
            id: self.id,
            name: self.name@,
            _type: self._type@,
            dimension: self.dimension@,
            residents: texts(self.residents@),
            url: self.url@,
            created: self.created@,
        }
    }
}

impl Clone for Location {
    fn clone(&self) -> (r: Self)
        ensures
            r@ == self@,
    {
        Location {
            id: self.id,
            name: self.name.clone(),
            _type: self._type.clone(),
            dimension: self.dimension.clone(),
            residents: clone_strings(&self.residents),
            url: self.url.clone(),
            created: self.created.clone(),
        }
    }
}

impl Default for Location {
    fn default() -> (r: Self)
        ensures
            r@ == (LocationView {
                id: 0,
                name: Seq::empty(),
                _type: Seq::empty(),
                dimension: Seq::empty(),
                residents: Seq::empty(),
                url: Seq::empty(),
                created: Seq::empty(),
            }),
    {
        let r = Location {
            id: 0,
            name: String::new(),
            _type: String::new(),
            dimension: String::new(),
            residents: Vec::new(),
            url: String::new(),
            created: String::new(),
        };
        assert(texts(r.residents@) =~= Seq::empty());
        r
    }
}

/// An episode.
#[derive(Debug, PartialEq)]
pub struct Episode {
    pub id: u32,
    pub name: String,
    pub air_date: String,
    pub episode: String,
    pub characters: Vec<String>,
    pub url: String,
    pub created: String,
}

/// The mathematical value of an `Episode`.
pub struct EpisodeView {
    pub id: u32,
    pub name: Seq<char>,
    pub air_date: Seq<char>,
    pub episode: Seq<char>,
    pub characters: Seq<Seq<char>>,
    pub url: Seq<char>,
    pub created: Seq<char>,
}

impl View for Episode {
    type V = EpisodeView;

    open spec fn view(&self) -> EpisodeView {
        EpisodeView {
            id: self.id,
            name: self.name@,
            air_date: self.air_date@,
            episode: self.episode@,
            characters: texts(self.characters@),
            url: self.url@,
            created: self.created@,
        }
    }
}

impl Clone for Episode {
    fn clone(&self) -> (r: Self)
        ensures
            r@ == self@,
    {
        Episode {
            id: self.id,
            name: self.name.clone(),
            air_date: self.air_date.clone(),
            episode: self.episode.clone(),
            characters: clone_strings(&self.characters),
            url: self.url.clone(),
            created: self.created.clone(),
        }
    }
}

impl Default for Episode {
    fn default() -> (r: Self)
        ensures
            r@ == (EpisodeView {
                id: 0,
                name: Seq::empty(),
                air_date: Seq::empty(),
                episode: Seq::empty(),
                characters: Seq::empty(),
                url: Seq::empty(),
                created: Seq::empty(),
            }),
    {
        let r = Episode {
            id: 0,
            name: String::new(),
            air_date: String::new(),
            episode: String::new(),
            characters: Vec::new(),
            url: String::new(),
            created: String::new(),
        };
        assert(texts(r.characters@) =~= Seq::empty());
        r
    }
}

/// A character.
#[derive(Debug, PartialEq)]
pub struct Character {
    pub id: u32,
    pub name: String,
    pub status: String,
    pub species: String,
    pub _type: String,
    pub gender: String,
    pub image: String,
    pub episode: Vec<String>,
    pub url: String,
    pub created: String,
}

/// The mathematical value of a `Character`.
pub struct CharacterView {
    pub id: u32,
    pub name: Seq<char>,
    pub status: Seq<char>,
    pub species: Seq<char>,
    pub _type: Seq<char>,
    pub gender: Seq<char>,
    pub image: Seq<char>,
    pub episode: Seq<Seq<char>>,
    pub url: Seq<char>,
    pub created: Seq<char>,
}

impl View for Character {
    type V = CharacterView;

    open spec fn view(&self) -> CharacterView {
        CharacterView {
            id: self.id,
            name: self.name@,
            status: self.status@,
            species: self.species@,
            _type: self._type@,
            gender: self.gender@,
            image: self.image@,
            episode: texts(self.episode@),
            url: self.url@,
            created: self.created@,
        }
    }
}

impl Clone for Character {
    fn clone(&self) -> (r: Self)
        ensures
            r@ == self@,
    {
        Character {
            id: self.id,
            name: self.name.clone(),
            status: self.status.clone(),
            species: self.species.clone(),
            _type: self._type.clone(),
            gender: self.gender.clone(),
            image: self.image.clone(),
            episode: clone_strings(&self.episode),
            url: self.url.clone(),
            created: self.created.clone(),
        }
    }
}

impl Default for Character {
    fn default() -> (r: Self)
        ensures
            r@ == (CharacterView {
                id: 0,
                name: Seq::empty(),
                status: Seq::empty(),
                species: Seq::empty(),
                _type: Seq::empty(),
                gender: Seq::empty(),
                image: Seq::empty(),
                episode: Seq::empty(),
                url: Seq::empty(),
                created: Seq::empty(),
            }),
    {
        let r = Character {
            id: 0,
            name: String::new(),
            status: String::new(),
            species: String::new(),
            _type: String::new(),
            gender: String::new(),
            image: String::new(),
            episode: Vec::new(),
            url: String::new(),
            created: String::new(),
        };
        assert(texts(r.episode@) =~= Seq::empty());
        r
    }
}

pub type CharacterPage = Page<Character>;

pub type EpisodePage = Page<Episode>;

pub type LocationPage = Page<Location>;

} // verus!
