use hash_graph::edges::{Direction, EdgeKind, EdgeResolveDepths, GraphResolveDepths};
use hash_graph::filter::{Filter, FilterExpression};
use hash_graph::number::Number;
use hash_graph::parameter::{Parameter, ParameterType};
use hash_graph::path::{DataType, DataTypeQueryPath, Entity, EntityQueryPath};
use hash_graph::query::{QueryError, StructuralQuery};
use hash_graph::wire::{DeserializationError, JsonValue};

fn string(text: &str) -> JsonValue {
    JsonValue::String(text.to_owned())
}

fn number(value: f64) -> JsonValue {
    JsonValue::Number(Number::from_bits(value.to_bits()))
}

fn object(members: Vec<(&str, JsonValue)>) -> JsonValue {
    JsonValue::Object(members.into_iter().map(|(key, value)| (key.to_owned(), value)).collect())
}

fn path(segment: &str) -> JsonValue {
    object(vec![("path", JsonValue::Array(vec![string(segment)]))])
}

fn parameter(value: JsonValue) -> JsonValue {
    object(vec![("parameter", value)])
}

fn equal(lhs: JsonValue, rhs: JsonValue) -> JsonValue {
    object(vec![("equal", JsonValue::Array(vec![lhs, rhs]))])
}

fn edge_depths(outgoing: f64, incoming: f64) -> JsonValue {
    object(vec![("outgoing", number(outgoing)), ("incoming", number(incoming))])
}

const KINDS: [&str; 8] = [
    "inheritsFrom",
    "constrainsValuesOn",
    "constrainsPropertiesOn",
    "constrainsLinksOn",
    "constrainsLinkDestinationsOn",
    "isOfType",
    "hasLeftEntity",
    "hasRightEntity",
];

fn depths_with(kind: &str, value: JsonValue) -> JsonValue {
    object(
        KINDS
            .iter()
            .map(|name| (*name, if *name == kind { clone(&value) } else { edge_depths(0.0, 0.0) }))
            .collect(),
    )
}

fn clone(value: &JsonValue) -> JsonValue {
    match value {
        JsonValue::Null => JsonValue::Null,
        JsonValue::Bool(inner) => JsonValue::Bool(*inner),
        JsonValue::Number(inner) => JsonValue::Number(*inner),
        JsonValue::String(inner) => JsonValue::String(inner.clone()),
        JsonValue::Array(items) => JsonValue::Array(items.iter().map(clone).collect()),
        JsonValue::Object(members) => JsonValue::Object(
            members.iter().map(|(key, inner)| (key.clone(), clone(inner))).collect(),
        ),
    }
}

fn query(filter: JsonValue, depths: JsonValue) -> JsonValue {
    object(vec![("filter", filter), ("graphResolveDepths", depths)])
}

#[test]
fn latest_version_query_is_prepared() {
    let json = query(
        equal(path("version"), parameter(string("latest"))),
        depths_with("inheritsFrom", edge_depths(2.0, 1.0)),
    );
    let prepared = StructuralQuery::<DataType>::prepare(&json).expect("the query is valid");
    assert_eq!(
        prepared.filter,
        Filter::Equal(
            Some(FilterExpression::Path(DataTypeQueryPath::Version)),
            Some(FilterExpression::Parameter(Parameter::Text("latest".to_owned()))),
        )
    );
    assert_eq!(
        prepared.graph_resolve_depths,
        GraphResolveDepths::zero()
            .set(EdgeKind::InheritsFrom, Direction::Outgoing, 2)
            .set(EdgeKind::InheritsFrom, Direction::Incoming, 1)
    );
}

#[test]
fn base_and_version_query_is_prepared() {
    let json = query(
        object(vec![(
            "all",
            JsonValue::Array(vec![
                equal(path("baseId"), parameter(string("X"))),
                equal(path("version"), parameter(number(1.0))),
            ]),
        )]),
        depths_with("isOfType", edge_depths(0.0, 0.0)),
    );
    let prepared = StructuralQuery::<DataType>::prepare(&json).expect("the query is valid");
    assert_eq!(
        prepared.filter,
        Filter::All(vec![
            Filter::Equal(
                Some(FilterExpression::Path(DataTypeQueryPath::BaseUri)),
                Some(FilterExpression::Parameter(Parameter::Text("X".to_owned()))),
            ),
            Filter::Equal(
                Some(FilterExpression::Path(DataTypeQueryPath::Version)),
                Some(FilterExpression::Parameter(Parameter::Number(Number::from_bits(
                    1.0f64.to_bits()
                )))),
            ),
        ])
    );
    assert_eq!(prepared.graph_resolve_depths, GraphResolveDepths::zero());
}

#[test]
fn parameters_are_coerced_when_a_query_is_prepared() {
    let json = query(
        equal(path("id"), parameter(string("550e8400-e29b-41d4-a716-446655440000"))),
        depths_with("hasLeftEntity", edge_depths(255.0, 0.0)),
    );
    let prepared = StructuralQuery::<Entity>::prepare(&json).expect("the query is valid");
    assert_eq!(
        prepared.filter,
        Filter::Equal(
            Some(FilterExpression::Path(EntityQueryPath::Id)),
            Some(FilterExpression::Parameter(Parameter::Uuid(
                0x550e8400_e29b_41d4_a716_446655440000
            ))),
        )
    );
    assert_eq!(
        prepared.graph_resolve_depths.has_left_entity,
        EdgeResolveDepths { outgoing: 255, incoming: 0 }
    );
    let read = StructuralQuery::<Entity>::from_json(&json).expect("the query is valid");
    assert_eq!(
        read.filter,
        Filter::Equal(
            Some(FilterExpression::Path(EntityQueryPath::Id)),
            Some(FilterExpression::Parameter(Parameter::Text(
                "550e8400-e29b-41d4-a716-446655440000".to_owned()
            ))),
        )
    );
}

#[test]
fn a_parameter_that_cannot_be_coerced_fails_validation() {
    let json = query(
        equal(path("archived"), parameter(string("yes"))),
        depths_with("isOfType", edge_depths(0.0, 0.0)),
    );
    match StructuralQuery::<Entity>::prepare(&json) {
        Err(QueryError::Validation(error)) => {
            assert_eq!(error.actual(), &Parameter::Text("yes".to_owned()));
            assert_eq!(error.expected(), ParameterType::Boolean);
        }
        other => panic!("unexpected outcome: {:?}", other),
    }
}

#[test]
fn a_value_that_is_no_query_fails_deserialization() {
    let filter = || equal(path("version"), JsonValue::Null);
    let depths = || depths_with("isOfType", edge_depths(1.0, 1.0));
    let malformed = vec![
        JsonValue::Null,
        object(vec![("filter", filter())]),
        object(vec![("graphResolveDepths", depths())]),
        query(JsonValue::Null, depths()),
        query(equal(path("nowhere"), JsonValue::Null), depths()),
        query(filter(), JsonValue::Null),
        query(filter(), object(vec![("isOfType", edge_depths(1.0, 1.0))])),
        query(filter(), depths_with("isOfType", edge_depths(1.5, 0.0))),
        query(filter(), depths_with("isOfType", edge_depths(-1.0, 0.0))),
        query(filter(), depths_with("isOfType", edge_depths(256.0, 0.0))),
        query(filter(), depths_with("isOfType", object(vec![("outgoing", number(1.0))]))),
        query(filter(), depths_with("isOfType", number(1.0))),
        query(
            filter(),
            depths_with(
                "isOfType",
                object(vec![("outgoing", string("1")), ("incoming", number(0.0))]),
            ),
        ),
    ];
    for json in malformed {
        assert_eq!(
            StructuralQuery::<DataType>::prepare(&json),
            Err(QueryError::Deserialization(DeserializationError)),
            "{:?}",
            json
        );
        assert_eq!(StructuralQuery::<DataType>::from_json(&json), Err(DeserializationError));
    }
}

#[test]
fn the_first_member_of_a_name_counts_and_others_are_ignored() {
    let json = object(vec![
        ("comment", string("ignored")),
        ("graphResolveDepths", depths_with("isOfType", edge_depths(3.0, 0.0))),
        ("filter", equal(JsonValue::Null, JsonValue::Null)),
        ("filter", JsonValue::Null),
    ]);
    let read = StructuralQuery::<DataType>::from_json(&json).expect("the query is valid");
    assert_eq!(read.filter, Filter::Equal(None, None));
    assert_eq!(read.graph_resolve_depths.depth(EdgeKind::IsOfType, Direction::Outgoing), 3);
}

#[test]
fn depths_are_read_for_every_kind() {
    let json = object(
        KINDS
            .iter()
            .enumerate()
            .map(|(index, name)| (*name, edge_depths(index as f64, (index + 10) as f64)))
            .collect(),
    );
    let depths = GraphResolveDepths::from_json(&json).expect("the depths are valid");
    let kinds = [
        EdgeKind::InheritsFrom,
        EdgeKind::ConstrainsValuesOn,
        EdgeKind::ConstrainsPropertiesOn,
        EdgeKind::ConstrainsLinksOn,
        EdgeKind::ConstrainsLinkDestinationsOn,
        EdgeKind::IsOfType,
        EdgeKind::HasLeftEntity,
        EdgeKind::HasRightEntity,
    ];
    for (index, kind) in kinds.iter().enumerate() {
        assert_eq!(depths.depth(*kind, Direction::Outgoing), index as u8);
        assert_eq!(depths.depth(*kind, Direction::Incoming), index as u8 + 10);
    }
}
