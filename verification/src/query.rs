//! A structural query: a filter that finds the roots, and the depths to
//! which the edges of each kind are followed from them.

use crate::edges::{EdgeResolveDepths, GraphResolveDepths};
use crate::filter::{Filter, FilterModel};
use crate::parameter::{ParameterConversionError, ParameterConversionErrorModel};
use crate::path::{QueryRecord, RecordPath};
use crate::text::text_is;
use crate::wire::{
    filter_in, lemma_json_model, members, DeserializationError, JsonModel, JsonValue,
};
use vstd::prelude::*;

verus! {

/// A filter together with the depths to which edges are followed.
#[derive(Debug, PartialEq)]
pub struct StructuralQuery<T: QueryRecord> {
    pub filter: Filter<T>,
    pub graph_resolve_depths: GraphResolveDepths,
}

/// A structural query, as a mathematical value.
pub struct QueryModel<P> {
    pub filter: FilterModel<P>,
    pub graph_resolve_depths: GraphResolveDepths,
}

impl<T: QueryRecord> View for StructuralQuery<T> {
    type V = QueryModel<T::Path>;

    open spec fn view(&self) -> QueryModel<T::Path> {
        QueryModel { filter: self.filter@, graph_resolve_depths: self.graph_resolve_depths }
    }
}

/// Why a query was refused before the store was asked.
#[derive(Debug, PartialEq)]
pub enum QueryError {
    /// The value has not the shape of a query.
    Deserialization(DeserializationError),
    /// A parameter cannot be brought to the type its path expects.
    Validation(ParameterConversionError),
}

/// A [`QueryError`], as a mathematical value.
pub enum QueryErrorModel {
    Deserialization,
    Validation(ParameterConversionErrorModel),
}

impl View for QueryError {
    type V = QueryErrorModel;

    open spec fn view(&self) -> QueryErrorModel {
        match self {
            QueryError::Deserialization(_) => QueryErrorModel::Deserialization,
            QueryError::Validation(error) => QueryErrorModel::Validation(error@),
        }
    }
}

/// The value of the first member of an object under a key.
pub open spec fn member_of(items: Seq<(Seq<char>, JsonModel)>, key: Seq<char>) -> Option<JsonModel>
    decreases items.len(),
{
    if items.len() == 0 {
        None
    } else {
        match member_of(items.drop_last(), key) {
            Some(value) => Some(value),
            None => if items.last().0 == key {
                Some(items.last().1)
            } else {
                None
            },
        }
    }
}

/// A member that stands at some place of an object, with none of its key
/// before it, is the first under that key.
pub proof fn lemma_member_at(items: Seq<(Seq<char>, JsonModel)>, key: Seq<char>, at: int)
    requires
        0 <= at < items.len(),
        member_of(items.take(at), key) is None,
        items[at].0 == key,
    ensures
        member_of(items, key) == Some(items[at].1),
    decreases items.len(),
{
    if at == items.len() - 1 {
        assert(items.drop_last() =~= items.take(at));
    } else {
        assert(items.drop_last().take(at) =~= items.take(at));
        lemma_member_at(items.drop_last(), key, at);
    }
}

/// The value of a field of an object.
pub open spec fn field_in(json: JsonModel, key: Seq<char>) -> Option<JsonModel> {
    match json {
        JsonModel::Object(items) => member_of(items, key),
        _ => None,
    }
}

/// The depth that a value stands for: a whole number from 0 to 255.
pub open spec fn depth_in(json: JsonModel) -> Option<u8> {
    match json {
        JsonModel::Number(number) => number.small_integer(),
        _ => None,
    }
}

/// The depths of one kind of edge that a value stands for: an object with
/// a depth under `outgoing` and one under `incoming`.
pub open spec fn edge_depths_in(json: JsonModel) -> Option<EdgeResolveDepths> {
    match (field_in(json, "outgoing"@), field_in(json, "incoming"@)) {
        (Some(outgoing), Some(incoming)) => match (depth_in(outgoing), depth_in(incoming)) {
            (Some(outgoing), Some(incoming)) => Some(EdgeResolveDepths { outgoing, incoming }),
            _ => None,
        },
        _ => None,
    }
}

/// The depths of the kind of edge that stands under a key.
pub open spec fn kind_in(json: JsonModel, key: Seq<char>) -> Option<EdgeResolveDepths> {
    match field_in(json, key) {
        Some(value) => edge_depths_in(value),
        None => None,
    }
}

/// The depths that a value stands for: an object with the depths of every
/// kind of edge under the name of the kind.
pub open spec fn depths_in(json: JsonModel) -> Option<GraphResolveDepths> {
    match (
        kind_in(json, "inheritsFrom"@),
        kind_in(json, "constrainsValuesOn"@),
        kind_in(json, "constrainsPropertiesOn"@),
        kind_in(json, "constrainsLinksOn"@),
        kind_in(json, "constrainsLinkDestinationsOn"@),
        kind_in(json, "isOfType"@),
        kind_in(json, "hasLeftEntity"@),
        kind_in(json, "hasRightEntity"@),
    ) {
        (
            Some(inherits_from),
            Some(constrains_values_on),
            Some(constrains_properties_on),
            Some(constrains_links_on),
            Some(constrains_link_destinations_on),
            Some(is_of_type),
            Some(has_left_entity),
            Some(has_right_entity),
        ) => Some(
            GraphResolveDepths {
                inherits_from,
                constrains_values_on,
                constrains_properties_on,
                constrains_links_on,
                constrains_link_destinations_on,
                is_of_type,
                has_left_entity,
                has_right_entity,
            },
        ),
        _ => None,
    }
}

/// The query that a value stands for: an object with a filter under
/// `filter` and depths under `graphResolveDepths`.
pub open spec fn query_in<P: RecordPath>(json: JsonModel) -> Option<QueryModel<P>> {
    match (field_in(json, "filter"@), field_in(json, "graphResolveDepths"@)) {
        (Some(filter), Some(depths)) => match (filter_in::<P>(filter), depths_in(depths)) {
            (Some(filter), Some(graph_resolve_depths)) => Some(
                QueryModel { filter, graph_resolve_depths },
            ),
            _ => None,
        },
        _ => None,
    }
}

/// The outcome of preparing a query for the store: the query with its
/// parameters coerced, or the reason why the store is not asked.
pub open spec fn prepared<P: RecordPath>(json: JsonModel) -> Result<
    QueryModel<P>,
    QueryErrorModel,
> {
    match query_in::<P>(json) {
        None => Err(QueryErrorModel::Deserialization),
        Some(query) => match query.filter.coerced() {
            Ok(filter) => Ok(
                QueryModel { filter, graph_resolve_depths: query.graph_resolve_depths },
            ),
            Err(error) => Err(QueryErrorModel::Validation(error)),
        },
    }
}

/// The value of a field of an object.
fn field<'a>(json: &'a JsonValue, key: &str) -> (value: Option<&'a JsonValue>)
    ensures
        match field_in(json@, key@) {
            Some(found) => value is Some && value->Some_0@ == found,
            None => value is None,
        },
{
    proof {
        lemma_json_model(*json);
    }
    match json {
        JsonValue::Object(items) => {
            let ghost all = members(items@);
            let mut index: usize = 0;
            proof {
                assert(all.take(0) =~= Seq::empty());
            }
            while index < items.len()
                invariant
                    index <= items.len(),
                    all == members(items@),
                    json@ == JsonModel::Object(all),
                    member_of(all.take(index as int), key@) is None,
                decreases items.len() - index,
            {
                if text_is(items[index].0.as_str(), key) {
                    proof {
                        lemma_member_at(all, key@, index as int);
                        assert(all[index as int].1 == items[index as int].1@);
                    }
                    return Some(&items[index].1);
                }
                proof {
                    assert(all.take(index + 1).drop_last() =~= all.take(index as int));
                }
                index += 1;
            }
            proof {
                assert(all.take(index as int) =~= all);
            }
            None
        },
        _ => None,
    }
}

/// Reads a depth.
fn depth_from_json(json: &JsonValue) -> (depth: Option<u8>)
    ensures
        depth == depth_in(json@),
{
    match json {
        JsonValue::Number(number) => number.to_u8(),
        _ => None,
    }
}

/// Reads the depths of one kind of edge.
fn edge_depths_from_json(json: &JsonValue) -> (depths: Option<EdgeResolveDepths>)
    ensures
        depths == edge_depths_in(json@),
{
    let outgoing = match field(json, "outgoing") {
        Some(value) => depth_from_json(value),
        None => {
            return None;
        },
    };
    let incoming = match field(json, "incoming") {
        Some(value) => depth_from_json(value),
        None => {
            return None;
        },
    };
    match (outgoing, incoming) {
        (Some(outgoing), Some(incoming)) => Some(EdgeResolveDepths { outgoing, incoming }),
        _ => None,
    }
}

/// Reads the depths of the kind of edge that stands under a key.
fn kind_from_json(json: &JsonValue, key: &str) -> (depths: Option<EdgeResolveDepths>)
    ensures
        depths == kind_in(json@, key@),
{
    match field(json, key) {
        Some(value) => edge_depths_from_json(value),
        None => None,
    }
}

impl GraphResolveDepths {
    /// Reads the depths of every kind of edge.
    pub fn from_json(json: &JsonValue) -> (outcome: Result<
        GraphResolveDepths,
        DeserializationError,
    >)
        ensures
            match depths_in(json@) {
                Some(depths) => outcome == Ok::<GraphResolveDepths, DeserializationError>(depths),
                None => outcome == Err::<GraphResolveDepths, DeserializationError>(
                    DeserializationError,
                ),
            },
    {
        match (
            kind_from_json(json, "inheritsFrom"),
            kind_from_json(json, "constrainsValuesOn"),
            kind_from_json(json, "constrainsPropertiesOn"),
            kind_from_json(json, "constrainsLinksOn"),
            kind_from_json(json, "constrainsLinkDestinationsOn"),
            kind_from_json(json, "isOfType"),
            kind_from_json(json, "hasLeftEntity"),
            kind_from_json(json, "hasRightEntity"),
        ) {
            (
                Some(inherits_from),
                Some(constrains_values_on),
                Some(constrains_properties_on),
                Some(constrains_links_on),
                Some(constrains_link_destinations_on),
                Some(is_of_type),
                Some(has_left_entity),
                Some(has_right_entity),
            ) => Ok(
                GraphResolveDepths {
                    inherits_from,
                    constrains_values_on,
                    constrains_properties_on,
                    constrains_links_on,
                    constrains_link_destinations_on,
                    is_of_type,
                    has_left_entity,
                    has_right_entity,
                },
            ),
            _ => Err(DeserializationError),
        }
    }
}

impl<T: QueryRecord> StructuralQuery<T> {
    /// Reads a query from its wire shape.
    pub fn from_json(json: &JsonValue) -> (outcome: Result<
        StructuralQuery<T>,
        DeserializationError,
    >)
        ensures
            match query_in::<T::Path>(json@) {
                Some(query) => outcome is Ok && outcome->Ok_0@ == query,
                None => outcome == Err::<StructuralQuery<T>, DeserializationError>(
                    DeserializationError,
                ),
            },
    {
        let filter = match field(json, "filter") {
            Some(value) => Filter::<T>::from_json(value),
            None => {
                return Err(DeserializationError);
            },
        };
        let depths = match field(json, "graphResolveDepths") {
            Some(value) => GraphResolveDepths::from_json(value),
            None => {
                return Err(DeserializationError);
            },
        };
        match (filter, depths) {
            (Ok(filter), Ok(graph_resolve_depths)) => Ok(
                StructuralQuery { filter, graph_resolve_depths },
            ),
            _ => Err(DeserializationError),
        }
    }

    /// Prepares a query for the store: reads it from its wire shape and
    /// coerces the parameters of its filter.
    ///
    /// A value that has not the shape of a query is refused first; a
    /// parameter that cannot be coerced is refused next, with the parameter
    /// and the type that was expected. Nothing has been asked of the store
    /// by then.
    pub fn prepare(json: &JsonValue) -> (outcome: Result<StructuralQuery<T>, QueryError>)
        ensures
            match prepared::<T::Path>(json@) {
                Ok(query) => outcome is Ok && outcome->Ok_0@ == query,
                Err(error) => outcome is Err && outcome->Err_0@ == error,
            },
    {
        let query = match Self::from_json(json) {
            Ok(query) => query,
            Err(error) => {
                return Err(QueryError::Deserialization(error));
            },
        };
        let StructuralQuery { mut filter, graph_resolve_depths } = query;
        match filter.convert_parameters() {
            Ok(()) => Ok(StructuralQuery { filter, graph_resolve_depths }),
            Err(error) => Err(QueryError::Validation(error)),
        }
    }
}

} // verus!
