//! The request that a query makes of the catalogue.

pub mod builder;
pub mod mock_request;

pub use self::mock_request::MockRequest;

use crate::decimal::decimal;
use crate::error::QueryError;
use crate::query_language::operation::{OperationEnum, OperationView, Root};
use crate::query_language::operation_list::OperationList;
use crate::rm_api::request::builder::{
    address, decimals, last_value, lemma_last_write_wins, CharactersRequest,
    EpisodesRequest, LocationsRequest, ParameterKey, RequestURLBuilder,
};
use vstd::prelude::*;

verus! {

/// Where the catalogue is.
pub open spec fn api_domain() -> Seq<char> {
    "https://rickandmortyapi.com"@
}

/// The resource that the operations select: that of the first of them.
/// `None` where there is no first operation, or it selects no resource.
pub open spec fn requested_root(ops: Seq<OperationView>) -> Option<Root> {
    if ops.len() > 0 {
        match ops[0] {
            OperationView::Root(root) => Some(root),
            _ => None,
        }
    } else {
        None
    }
}

/// Where a request for the resource goes at `domain`, up to and with the
/// question mark.
pub open spec fn resource_base(domain: Seq<char>, root: Root) -> Seq<char> {
    match root {
        Root::CHARACTERS => domain + "/api/character/?"@,
        Root::EPISODES => domain + "/api/episode/"@ + seq!['?'],
        Root::LOCATIONS => domain + "/api/location/?"@,
    }
}

/// The parameters of a request after one more operation. `Name` and `Page`
/// add theirs behind the others; `Dimension` adds its own for locations alone;
/// no other operation has a part in the request.
pub open spec fn parameters_after(
    root: Root,
    parameters: Seq<(ParameterKey, Seq<char>)>,
    op: OperationView,
) -> Seq<(ParameterKey, Seq<char>)> {
    match op {
        OperationView::Name(name) => parameters.push((ParameterKey::Name, name.text())),
        OperationView::Page(page) => parameters.push(
            (ParameterKey::Page, decimal(page.number() as nat)),
        ),
        OperationView::Dimension(dimension) => if root == Root::LOCATIONS {
            parameters.push((ParameterKey::Dimension, dimension.text()))
        } else {
            parameters
        },
        _ => parameters,
    }
}

/// The parameters of the request that the operations shape, taken one
/// after the other in their order.
pub open spec fn request_parameters(root: Root, ops: Seq<OperationView>) -> Seq<
    (ParameterKey, Seq<char>),
>
    decreases ops.len(),
{
    if ops.len() == 0 {
        Seq::empty()
    } else {
        parameters_after(root, request_parameters(root, ops.drop_last()), ops.last())
    }
}

/// The address of the request that the operations shape for the resource.
pub open spec fn request_address(domain: Seq<char>, root: Root, ops: Seq<OperationView>) -> Seq<
    char,
> {
    address(resource_base(domain, root), request_parameters(root, ops))
}

/// The resource that the operations select. Fails where they begin with
/// no selection of a resource.
pub fn request_root(operation_list: &OperationList) -> (r: Result<Root, QueryError>)
    ensures
        match r {
            Ok(root) => requested_root(operation_list@) == Some(root),
            Err(error) => requested_root(operation_list@) is None && error
                == QueryError::UnsupportedRoot,
        },
{
    if operation_list.0.len() == 0 {
        return Err(QueryError::UnsupportedRoot);
    }
    match &operation_list.0[0].0 {
        OperationEnum::Root(root) => Ok(*root),
        _ => Err(QueryError::UnsupportedRoot),
    }
}

/// The address at which the catalogue at `domain` is asked for characters.
fn characters_address(domain: &str, operation_list: &OperationList) -> (r: String)
    ensures
        r@ == request_address(domain@, Root::CHARACTERS, operation_list@),
{
    let ghost ops = operation_list@;
    let mut builder = CharactersRequest::new(domain);
    let mut i: usize = 0;
    assert(ops.take(0) =~= Seq::empty());
    while i < operation_list.0.len()
        invariant
            i <= operation_list.0.len(),
            ops == operation_list@,
            builder.base() == resource_base(domain@, Root::CHARACTERS),
            builder.parameters() == request_parameters(Root::CHARACTERS, ops.take(i as int)),
        decreases operation_list.0.len() - i,
    {
        proof {
            assert(ops.take(i + 1).drop_last() == ops.take(i as int));
            assert(ops.take(i + 1).last() == operation_list.0@[i as int]@);
        }
        match &operation_list.0[i].0 {
            OperationEnum::Name(name) => {
                builder.name(name.to_text().as_str());
            },
            OperationEnum::Page(page) => {
                builder.page(page.to_number());
            },
            _ => {},
        }
        i += 1;
    }
    assert(ops.take(operation_list.0.len() as int) == ops);
    builder.build_url()
}

/// The address at which the catalogue at `domain` is asked for episodes.
fn episodes_address(domain: &str, operation_list: &OperationList) -> (r: String)
    ensures
        r@ == request_address(domain@, Root::EPISODES, operation_list@),
{
    let ghost ops = operation_list@;
    let mut builder = EpisodesRequest::new(domain, Vec::new());
    assert(builder.base() =~= resource_base(domain@, Root::EPISODES)) by {
        let none = decimals(Seq::<u32>::empty());
        assert(none =~= Seq::empty());
    }
    let mut i: usize = 0;
    assert(ops.take(0) =~= Seq::empty());
    while i < operation_list.0.len()
        invariant
            i <= operation_list.0.len(),
            ops == operation_list@,
            builder.base() == resource_base(domain@, Root::EPISODES),
            builder.parameters() == request_parameters(Root::EPISODES, ops.take(i as int)),
        decreases operation_list.0.len() - i,
    {
        proof {
            assert(ops.take(i + 1).drop_last() == ops.take(i as int));
            assert(ops.take(i + 1).last() == operation_list.0@[i as int]@);
        }
        match &operation_list.0[i].0 {
            OperationEnum::Name(name) => {
                builder.name(name.to_text().as_str());
            },
            OperationEnum::Page(page) => {
                builder.page(page.to_number());
            },
            _ => {},
        }
        i += 1;
    }
    assert(ops.take(operation_list.0.len() as int) == ops);
    builder.build_url()
}

/// The address at which the catalogue at `domain` is asked for locations.
fn locations_address(domain: &str, operation_list: &OperationList) -> (r: String)
    ensures
        r@ == request_address(domain@, Root::LOCATIONS, operation_list@),
{
    let ghost ops = operation_list@;
    let mut builder = LocationsRequest::new(domain);
    let mut i: usize = 0;
    assert(ops.take(0) =~= Seq::empty());
    while i < operation_list.0.len()
        invariant
            i <= operation_list.0.len(),
            ops == operation_list@,
            builder.base() == resource_base(domain@, Root::LOCATIONS),
            builder.parameters() == request_parameters(Root::LOCATIONS, ops.take(i as int)),
        decreases operation_list.0.len() - i,
    {
        proof {
            assert(ops.take(i + 1).drop_last() == ops.take(i as int));
            assert(ops.take(i + 1).last() == operation_list.0@[i as int]@);
        }
        match &operation_list.0[i].0 {
            OperationEnum::Name(name) => {
                builder.name(name.to_text().as_str());
            },
            OperationEnum::Page(page) => {
                builder.page(page.to_number());
            },
            OperationEnum::Dimension(dimension) => {
                builder.dimension(dimension.to_text().as_str());
            },
            _ => {},
        }
        i += 1;
    }
    assert(ops.take(operation_list.0.len() as int) == ops);
    builder.build_url()
}

/// The address at which the catalogue is asked for the resource `root`,
/// with one parameter for each operation that sets the name, the page or, for
/// locations, the dimension, in the order of the operations.
pub fn build_request(root: Root, operation_list: &OperationList) -> (r: String)
    ensures
        r@ == request_address(api_domain(), root, operation_list@),
{
    match root {
        Root::CHARACTERS => characters_address("https://rickandmortyapi.com", operation_list),
        Root::EPISODES => episodes_address("https://rickandmortyapi.com", operation_list),
        Root::LOCATIONS => locations_address("https://rickandmortyapi.com", operation_list),
    }
}

/// The request that the operations shape: the resource that they select,
/// and the address at which the catalogue is asked for it. Fails where they
/// begin with no selection of a resource; nothing is asked of the catalogue then.
pub fn shape_request(operation_list: &OperationList) -> (r: Result<(Root, String), QueryError>)
    ensures
        match r {
            Ok((root, url)) => requested_root(operation_list@) == Some(root) && url@
                == request_address(api_domain(), root, operation_list@),
            Err(error) => requested_root(operation_list@) is None && error
                == QueryError::UnsupportedRoot,
        },
{
    match request_root(operation_list) {
        Ok(root) => Ok((root, build_request(root, operation_list))),
        Err(error) => Err(error),
    }
}

/// The last write wins: in the request that the operations shape, the
/// last name is that of the `Name` operation that comes last, and likewise
/// the last page; for locations, likewise the last dimension.
pub proof fn lemma_last_operation_wins(root: Root, ops: Seq<OperationView>, op: OperationView)
    ensures
        match op {
            OperationView::Name(name) => last_value(
                request_parameters(root, ops.push(op)),
                ParameterKey::Name,
            ) == Some(name.text()),
            OperationView::Page(page) => last_value(
                request_parameters(root, ops.push(op)),
                ParameterKey::Page,
            ) == Some(decimal(page.number() as nat)),
            OperationView::Dimension(dimension) => root == Root::LOCATIONS ==> last_value(
                request_parameters(root, ops.push(op)),
                ParameterKey::Dimension,
            ) == Some(dimension.text()),
            _ => request_parameters(root, ops.push(op)) == request_parameters(root, ops),
        },
{
    assert(ops.push(op).drop_last() =~= ops);
    let before = request_parameters(root, ops);
    match op {
        OperationView::Name(name) => {
            lemma_last_write_wins(before, ParameterKey::Name, name.text());
        },
        OperationView::Page(page) => {
            lemma_last_write_wins(before, ParameterKey::Page, decimal(page.number() as nat));
        },
        OperationView::Dimension(dimension) => {
            lemma_last_write_wins(before, ParameterKey::Dimension, dimension.text());
        },
        _ => {},
    }
}

} // verus!
