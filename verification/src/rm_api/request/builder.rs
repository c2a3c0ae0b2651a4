//! The addresses at which the catalogue is asked for its resources.

use crate::decimal::{decimal, decimal_chars};
use crate::text::{chars_of, extend_chars, extend_str, join, joined, string_of, texts_of};
use vstd::prelude::*;

verus! {

/// What a request can ask the catalogue to go by.
#[derive(Debug, Clone, Copy, PartialEq, Eq, Structural)]
pub enum ParameterKey {
    Name,
    Page,
    Dimension,
}

/// One parameter of a request: what it goes by, and the value.
pub struct Parameter {
    pub key: ParameterKey,
    pub value: Vec<char>,
}

impl View for Parameter {
    type V = (ParameterKey, Seq<char>);

    open spec fn view(&self) -> (ParameterKey, Seq<char>) {
        (self.key, self.value@)
    }
}

/// The values of a sequence of parameters.
pub open spec fn parameter_views(parameters: Seq<Parameter>) -> Seq<(ParameterKey, Seq<char>)> {
    parameters.map_values(|p: Parameter| p@)
}

/// The value of the last parameter that goes by `key`, or `None` where
/// no parameter goes by it.
pub open spec fn last_value(parameters: Seq<(ParameterKey, Seq<char>)>, key: ParameterKey) -> Option<
    Seq<char>,
>
    decreases parameters.len(),
{
    if parameters.len() == 0 {
        None
    } else if parameters.last().0 == key {
        Some(parameters.last().1)
    } else {
        last_value(parameters.drop_last(), key)
    }
}

/// The last write wins: once a parameter is added, the last parameter of
/// its key is the one that was added, and the last parameter of every other
/// key is what it was.
pub proof fn lemma_last_write_wins(
    parameters: Seq<(ParameterKey, Seq<char>)>,
    key: ParameterKey,
    value: Seq<char>,
)
    ensures
        last_value(parameters.push((key, value)), key) == Some(value),
        forall|other: ParameterKey|
            other != key ==> last_value(parameters.push((key, value)), other) == last_value(
                parameters,
                other,
            ),
{
    let after = parameters.push((key, value));
    assert(after.drop_last() =~= parameters);
}

/// The word for a key in an address.
pub open spec fn key_word(key: ParameterKey) -> Seq<char> {
    match key {
        ParameterKey::Name => "name"@,
        ParameterKey::Page => "page"@,
        ParameterKey::Dimension => "dimension"@,
    }
}

/// A parameter as an address writes it: the word for the key, an equals
/// sign, and the value.
pub open spec fn parameter_text(parameter: (ParameterKey, Seq<char>)) -> Seq<char> {
    key_word(parameter.0) + seq!['='] + parameter.1
}

/// The address: the base, and the parameters with an ampersand between
/// each two.
pub open spec fn address(base: Seq<char>, parameters: Seq<(ParameterKey, Seq<char>)>) -> Seq<char> {
    base + joined(parameters.map_values(|p: (ParameterKey, Seq<char>)| parameter_text(p)), seq!['&'])
}

/// What stands between an address and one more parameter: nothing behind
/// the question mark, an ampersand behind a parameter.
pub open spec fn joint(parameters: Seq<(ParameterKey, Seq<char>)>) -> Seq<char> {
    if parameters.len() == 0 {
        Seq::empty()
    } else {
        seq!['&']
    }
}

/// One more parameter makes the address longer at its end and changes
/// nothing of what stood in it: the address with the parameter is the address
/// without it, the joint, and the parameter as it is written.
pub proof fn lemma_address_grows(
    base: Seq<char>,
    parameters: Seq<(ParameterKey, Seq<char>)>,
    parameter: (ParameterKey, Seq<char>),
)
    ensures
        address(base, parameters.push(parameter)) == address(base, parameters) + joint(parameters)
            + parameter_text(parameter),
{
    let write = |p: (ParameterKey, Seq<char>)| parameter_text(p);
    let texts = parameters.map_values(write);
    let longer = parameters.push(parameter).map_values(write);
    assert(longer =~= texts.push(parameter_text(parameter)));
    assert(longer.drop_last() =~= texts);
    if parameters.len() == 0 {
        assert(joined(texts, seq!['&']) =~= Seq::empty());
        assert(base + parameter_text(parameter) =~= base + Seq::empty() + Seq::empty()
            + parameter_text(parameter));
    } else {
        assert(base + (joined(texts, seq!['&']) + seq!['&'] + parameter_text(parameter)) =~= base
            + joined(texts, seq!['&']) + seq!['&'] + parameter_text(parameter));
    }
}

/// Adds a parameter behind the others.
pub fn add_parameter(parameters: &mut Vec<Parameter>, key: ParameterKey, value: Vec<char>)
    ensures
        parameter_views(final(parameters)@) == parameter_views(old(parameters)@).push(
            (key, value@),
        ),
{
    parameters.push(Parameter { key, value });
    assert(parameter_views(parameters@) =~= parameter_views(old(parameters)@).push((key, value@)));
}

/// Writes an address.
pub fn write_address(base: &Vec<char>, parameters: &Vec<Parameter>) -> (r: String)
    ensures
        r@ == address(base@, parameter_views(parameters@)),
{
    let ghost texts = parameter_views(parameters@).map_values(
        |p: (ParameterKey, Seq<char>)| parameter_text(p),
    );
    let mut parts: Vec<Vec<char>> = Vec::new();
    let mut i: usize = 0;
    while i < parameters.len()
        invariant
            i <= parameters.len(),
            texts == parameter_views(parameters@).map_values(
                |p: (ParameterKey, Seq<char>)| parameter_text(p),
            ),
            texts_of(parts@) == texts.take(i as int),
        decreases parameters.len() - i,
    {
        let ghost written = parts@;
        let mut part = match parameters[i].key {
            ParameterKey::Name => chars_of("name"),
            ParameterKey::Page => chars_of("page"),
            ParameterKey::Dimension => chars_of("dimension"),
        };
        part.push('=');
        extend_chars(&mut part, &parameters[i].value);
        assert(part@ =~= parameter_text(parameters@[i as int]@));
        parts.push(part);
        assert(texts_of(parts@) =~= texts_of(written).push(part@));
        assert(texts.take(i + 1) =~= texts.take(i as int).push(texts[i as int]));
        i += 1;
    }
    assert(texts.take(parameters.len() as int) == texts);
    let mut separator: Vec<char> = Vec::new();
    separator.push('&');
    assert(separator@ =~= seq!['&']);
    let mut r: Vec<char> = Vec::new();
    extend_chars(&mut r, base);
    extend_chars(&mut r, &join(&parts, &separator));
    assert(r@ =~= address(base@, parameter_views(parameters@)));
    string_of(&r)
}

/// Builds an address.
pub trait RequestURLBuilder {
    /// The address that the request stands for.
    spec fn url(&self) -> Seq<char>;

    /// The address of the request.
    fn build_url(&self) -> (r: String)
        ensures
            r@ == self.url(),
    ;
}

/// A request for characters.
pub struct CharactersRequest {
    base: Vec<char>,
    parameters: Vec<Parameter>,
}

impl CharactersRequest {
    /// Where the request goes, up to and with the question mark.
    pub closed spec fn base(&self) -> Seq<char> {
        self.base@
    }

    /// The parameters of the request, in the order in which they were set.
    pub closed spec fn parameters(&self) -> Seq<(ParameterKey, Seq<char>)> {
        parameter_views(self.parameters@)
    }

    /// A request to the catalogue at `domain`, with no parameters yet.
    pub fn new(domain: &str) -> (r: Self)
        ensures
            r.base() == domain@ + "/api/character/?"@,
            r.parameters() == Seq::<(ParameterKey, Seq<char>)>::empty(),
    {
        let mut base = chars_of(domain);
        extend_str(&mut base, "/api/character/?");
        let r = CharactersRequest { base, parameters: Vec::new() };
        assert(r.parameters() =~= Seq::empty());
        r
    }

    /// Asks for the characters of this name. The parameter joins those that
    /// were set before, behind them; a name set before stays where it is.
    pub fn name(&mut self, name: &str) -> (r: &mut Self)
        ensures
            r.base() == old(self).base(),
            r.parameters() == old(self).parameters().push((ParameterKey::Name, name@)),
            *final(self) == *final(r),
    {
        add_parameter(&mut self.parameters, ParameterKey::Name, chars_of(name));
        self
    }

    /// Asks for this page. The parameter joins those that were set
    /// before, behind them; a page set before stays where it is.
    pub fn page(&mut self, page: u32) -> (r: &mut Self)
        ensures
            r.base() == old(self).base(),
            r.parameters() == old(self).parameters().push(
                (ParameterKey::Page, decimal(page as nat)),
            ),
            *final(self) == *final(r),
    {
        add_parameter(&mut self.parameters, ParameterKey::Page, decimal_chars(page));
        self
    }
}

impl RequestURLBuilder for CharactersRequest {
    open spec fn url(&self) -> Seq<char> {
        address(self.base(), self.parameters())
    }

    fn build_url(&self) -> (r: String) {
        write_address(&self.base, &self.parameters)
    }
}

/// The numbers in decimal.
pub open spec fn decimals(numbers: Seq<u32>) -> Seq<Seq<char>> {
    numbers.map_values(|n: u32| decimal(n as nat))
}

/// A request for episodes.
pub struct EpisodesRequest {
    base: Vec<char>,
    parameters: Vec<Parameter>,
}

impl EpisodesRequest {
    /// Where the request goes, up to and with the question mark.
    pub closed spec fn base(&self) -> Seq<char> {
        self.base@
    }

    /// The parameters of the request, in the order in which they were set.
    pub closed spec fn parameters(&self) -> Seq<(ParameterKey, Seq<char>)> {
        parameter_views(self.parameters@)
    }

    /// A request to the catalogue at `domain` for the episodes of the
    /// given numbers, or for all where none is given, with no parameters yet.
    pub fn new(domain: &str, episode_numbers: Vec<u32>) -> (r: Self)
        ensures
            r.base() == domain@ + "/api/episode/"@ + joined(
                decimals(episode_numbers@),
                seq![','],
            ) + seq!['?'],
            r.parameters() == Seq::<(ParameterKey, Seq<char>)>::empty(),
    {
        let ghost texts = decimals(episode_numbers@);
        let mut numbers: Vec<Vec<char>> = Vec::new();
        let mut i: usize = 0;
        while i < episode_numbers.len()
            invariant
                i <= episode_numbers.len(),
                texts == decimals(episode_numbers@),
                texts_of(numbers@) == texts.take(i as int),
            decreases episode_numbers.len() - i,
        {
            let ghost written = numbers@;
            let number = decimal_chars(episode_numbers[i]);
            numbers.push(number);
            assert(texts_of(numbers@) =~= texts_of(written).push(number@));
            assert(texts.take(i + 1) =~= texts.take(i as int).push(texts[i as int]));
            i += 1;
        }
        assert(texts.take(episode_numbers.len() as int) == texts);
        let mut comma: Vec<char> = Vec::new();
        comma.push(',');
        assert(comma@ =~= seq![',']);
        let mut base = chars_of(domain);
        extend_str(&mut base, "/api/episode/");
        extend_chars(&mut base, &join(&numbers, &comma));
        base.push('?');
        let r = EpisodesRequest { base, parameters: Vec::new() };
        assert(r.parameters() =~= Seq::empty());
        r
    }

    /// Asks for the episodes of this name. The parameter joins those that
    /// were set before, behind them; a name set before stays where it is.
    pub fn name(&mut self, name: &str) -> (r: &mut Self)
        ensures
            r.base() == old(self).base(),
            r.parameters() == old(self).parameters().push((ParameterKey::Name, name@)),
            *final(self) == *final(r),
    {
        add_parameter(&mut self.parameters, ParameterKey::Name, chars_of(name));
        self
    }

    /// Asks for this page. The parameter joins those that were set
    /// before, behind them; a page set before stays where it is.
    pub fn page(&mut self, page: u32) -> (r: &mut Self)
        ensures
            r.base() == old(self).base(),
            r.parameters() == old(self).parameters().push(
                (ParameterKey::Page, decimal(page as nat)),
            ),
            *final(self) == *final(r),
    {
        add_parameter(&mut self.parameters, ParameterKey::Page, decimal_chars(page));
        self
    }
}

impl RequestURLBuilder for EpisodesRequest {
    open spec fn url(&self) -> Seq<char> {
        address(self.base(), self.parameters())
    }

    fn build_url(&self) -> (r: String) {
        write_address(&self.base, &self.parameters)
    }
}

/// A request for locations.
pub struct LocationsRequest {
    base: Vec<char>,
    parameters: Vec<Parameter>,
}

impl LocationsRequest {
    /// Where the request goes, up to and with the question mark.
    pub closed spec fn base(&self) -> Seq<char> {
        self.base@
    }

    /// The parameters of the request, in the order in which they were set.
    pub closed spec fn parameters(&self) -> Seq<(ParameterKey, Seq<char>)> {
        parameter_views(self.parameters@)
    }

    /// A request to the catalogue at `domain`, with no parameters yet.
    pub fn new(domain: &str) -> (r: Self)
        ensures
            r.base() == domain@ + "/api/location/?"@,
            r.parameters() == Seq::<(ParameterKey, Seq<char>)>::empty(),
    {
        let mut base = chars_of(domain);
        extend_str(&mut base, "/api/location/?");
        let r = LocationsRequest { base, parameters: Vec::new() };
        assert(r.parameters() =~= Seq::empty());
        r
    }

    /// Asks for the locations of this name. The parameter joins those that
    /// were set before, behind them; a name set before stays where it is.
    pub fn name(&mut self, name: &str) -> (r: &mut Self)
        ensures
            r.base() == old(self).base(),
            r.parameters() == old(self).parameters().push((ParameterKey::Name, name@)),
            *final(self) == *final(r),
    {
        add_parameter(&mut self.parameters, ParameterKey::Name, chars_of(name));
        self
    }

    /// Asks for this page. The parameter joins those that were set
    /// before, behind them; a page set before stays where it is.
    pub fn page(&mut self, page: u32) -> (r: &mut Self)
        ensures
            r.base() == old(self).base(),
            r.parameters() == old(self).parameters().push(
                (ParameterKey::Page, decimal(page as nat)),
            ),
            *final(self) == *final(r),
    {
        add_parameter(&mut self.parameters, ParameterKey::Page, decimal_chars(page));
        self
    }

    /// Asks for the locations of this dimension. The parameter joins
    /// those that were set before, behind them; a dimension set before stays
    /// where it is.
    pub fn dimension(&mut self, dimension: &str) -> (r: &mut Self)
        ensures
            r.base() == old(self).base(),
            r.parameters() == old(self).parameters().push((ParameterKey::Dimension, dimension@)),
            *final(self) == *final(r),
    {
        add_parameter(&mut self.parameters, ParameterKey::Dimension, chars_of(dimension));
        self
    }
}

impl RequestURLBuilder for LocationsRequest {
    open spec fn url(&self) -> Seq<char> {
        address(self.base(), self.parameters())
    }

    fn build_url(&self) -> (r: String) {
        write_address(&self.base, &self.parameters)
    }
}

} // verus!
