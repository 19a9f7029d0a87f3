use hash_graph::filter::{Filter, FilterExpression};
use hash_graph::identifier::EntityId;
use hash_graph::number::Number;
use hash_graph::parameter::{Parameter, ParameterType};
use hash_graph::path::{
    DataType, DataTypeQueryPath, Entity, EntityQueryPath, Link, LinkQueryPath, RecordPath,
};

const UUID_TEXT: &str = "550e8400-e29b-41d4-a716-446655440000";
const UUID_VALUE: u128 = 0x550e8400_e29b_41d4_a716_446655440000;

fn number(value: f64) -> Parameter {
    Parameter::Number(Number::from_bits(value.to_bits()))
}

fn text(value: &str) -> Parameter {
    Parameter::Text(value.to_owned())
}

fn all_types() -> Vec<ParameterType> {
    vec![
        ParameterType::Boolean,
        ParameterType::Number,
        ParameterType::UnsignedInteger,
        ParameterType::Text,
        ParameterType::Uuid,
        ParameterType::BaseUri,
        ParameterType::VersionedUri,
        ParameterType::Timestamp,
        ParameterType::Any,
    ]
}

#[test]
fn matching_kinds_are_kept() {
    let cases = vec![
        (Parameter::Boolean(true), ParameterType::Boolean),
        (number(1.5), ParameterType::Number),
        (text("a"), ParameterType::Text),
        (text("https://example.com/"), ParameterType::BaseUri),
        (text("https://example.com/v/1"), ParameterType::VersionedUri),
    ];
    for (mut parameter, expected) in cases {
        let before = parameter.to_owned();
        assert_eq!(parameter.convert_to_parameter_type(expected), Ok(()));
        assert_eq!(parameter, before);
    }
}

#[test]
fn any_and_timestamp_keep_everything() {
    for expected in [ParameterType::Any, ParameterType::Timestamp] {
        let parameters = vec![
            Parameter::Boolean(false),
            number(-3.5),
            text("not a timestamp"),
            Parameter::Uuid(7),
            Parameter::SignedInteger(-1),
        ];
        for mut parameter in parameters {
            let before = parameter.to_owned();
            assert_eq!(parameter.convert_to_parameter_type(expected), Ok(()));
            assert_eq!(parameter, before);
        }
    }
}

#[test]
fn text_becomes_uuid() {
    let mut parameter = text(UUID_TEXT);
    assert_eq!(parameter.convert_to_parameter_type(ParameterType::Uuid), Ok(()));
    assert_eq!(parameter, Parameter::Uuid(UUID_VALUE));
}

#[test]
fn uuid_text_round_trips() {
    let mut parameter = text(UUID_TEXT);
    parameter.convert_to_parameter_type(ParameterType::Uuid).unwrap();
    match parameter {
        Parameter::Uuid(value) => {
            assert_eq!(uuid::Uuid::from_u128(value).to_string(), UUID_TEXT);
        }
        other => panic!("not a uuid: {:?}", other),
    }
}

#[test]
fn other_spellings_of_a_uuid_parse_to_the_same_value() {
    for spelling in [
        "550E8400-E29B-41D4-A716-446655440000",
        "550e8400e29b41d4a716446655440000",
        "{550e8400-e29b-41d4-a716-446655440000}",
        "urn:uuid:550e8400-e29b-41d4-a716-446655440000",
    ] {
        let mut parameter = text(spelling);
        assert_eq!(parameter.convert_to_parameter_type(ParameterType::Uuid), Ok(()));
        assert_eq!(parameter, Parameter::Uuid(UUID_VALUE));
    }
}

#[test]
fn text_that_is_no_uuid_is_refused() {
    for spelling in ["", "latest", "550e8400-e29b-41d4-a716", "550e8400-e29b-41d4-a716-44665544000g"] {
        let mut parameter = text(spelling);
        let error = parameter.convert_to_parameter_type(ParameterType::Uuid).unwrap_err();
        assert_eq!(error.actual(), &text(spelling));
        assert_eq!(error.expected(), ParameterType::Uuid);
        assert_eq!(parameter, text(spelling));
    }
}

#[test]
fn number_becomes_unsigned_integer() {
    let cases = vec![(0.0, 0), (1.0, 1), (2.5, 3), (0.4, 0), (41.5, 42), (1e6, 1_000_000)];
    for (value, integer) in cases {
        let mut parameter = number(value);
        assert_eq!(parameter.convert_to_parameter_type(ParameterType::UnsignedInteger), Ok(()));
        assert_eq!(parameter, Parameter::SignedInteger(integer));
    }
}

#[test]
fn number_beyond_the_range_saturates() {
    let mut parameter = number(1e30);
    assert_eq!(parameter.convert_to_parameter_type(ParameterType::UnsignedInteger), Ok(()));
    assert_eq!(parameter, Parameter::SignedInteger(i64::MAX));
}

#[test]
fn number_that_rounds_below_zero_is_refused() {
    for value in [-0.5, -1.0, -2.4, -1e30, f64::NEG_INFINITY] {
        let mut parameter = number(value);
        let error =
            parameter.convert_to_parameter_type(ParameterType::UnsignedInteger).unwrap_err();
        assert_eq!(error.actual(), &number(value));
        assert_eq!(error.expected(), ParameterType::UnsignedInteger);
        assert_eq!(parameter, number(value));
    }
}

#[test]
fn negative_number_that_rounds_to_zero_is_accepted() {
    for value in [-0.0, -0.25, -0.49] {
        let mut parameter = number(value);
        assert_eq!(parameter.convert_to_parameter_type(ParameterType::UnsignedInteger), Ok(()));
        assert_eq!(parameter, Parameter::SignedInteger(0));
    }
}

#[test]
fn every_other_pairing_is_refused() {
    let parameters = vec![
        Parameter::Boolean(true),
        number(1.0),
        text(UUID_TEXT),
        Parameter::Uuid(UUID_VALUE),
        Parameter::SignedInteger(1),
    ];
    for parameter in parameters {
        for expected in all_types() {
            let accepted = match (&parameter, expected) {
                (_, ParameterType::Any) | (_, ParameterType::Timestamp) => true,
                (Parameter::Boolean(_), ParameterType::Boolean) => true,
                (Parameter::Number(_), ParameterType::Number) => true,
                (Parameter::Number(_), ParameterType::UnsignedInteger) => true,
                (Parameter::Text(_), ParameterType::Text) => true,
                (Parameter::Text(_), ParameterType::BaseUri) => true,
                (Parameter::Text(_), ParameterType::VersionedUri) => true,
                (Parameter::Text(_), ParameterType::Uuid) => true,
                (Parameter::Uuid(_), ParameterType::Uuid) => true,
                (Parameter::SignedInteger(_), ParameterType::UnsignedInteger) => true,
                _ => false,
            };
            let mut attempt = parameter.to_owned();
            let outcome = attempt.convert_to_parameter_type(expected);
            assert_eq!(outcome.is_ok(), accepted, "{:?} to {:?}", parameter, expected);
            if let Err(error) = outcome {
                assert_eq!(error.actual(), &parameter);
                assert_eq!(error.expected(), expected);
                assert_eq!(attempt, parameter);
            }
        }
    }
}

#[test]
fn from_parsed_uuid_takes_the_answer() {
    assert_eq!(
        Parameter::from_parsed_uuid("anything".to_owned(), Some(9)),
        Ok(Parameter::Uuid(9))
    );
    let error = Parameter::from_parsed_uuid("anything".to_owned(), None).unwrap_err();
    assert_eq!(error.actual(), &text("anything"));
    assert_eq!(error.expected(), ParameterType::Uuid);
}

#[test]
fn filter_parameters_are_coerced_against_their_paths() {
    let mut filter = Filter::<Entity>::All(vec![
        Filter::Equal(
            Some(FilterExpression::Path(EntityQueryPath::Id)),
            Some(FilterExpression::Parameter(text(UUID_TEXT))),
        ),
        Filter::Not(Box::new(Filter::NotEqual(
            Some(FilterExpression::Parameter(Parameter::Boolean(true))),
            Some(FilterExpression::Path(EntityQueryPath::Archived)),
        ))),
        Filter::Any(vec![Filter::Equal(
            Some(FilterExpression::Path(EntityQueryPath::Version)),
            Some(FilterExpression::Parameter(text("latest"))),
        )]),
    ]);
    assert_eq!(filter.convert_parameters(), Ok(()));
    assert_eq!(
        filter,
        Filter::All(vec![
            Filter::Equal(
                Some(FilterExpression::Path(EntityQueryPath::Id)),
                Some(FilterExpression::Parameter(Parameter::Uuid(UUID_VALUE))),
            ),
            Filter::Not(Box::new(Filter::NotEqual(
                Some(FilterExpression::Parameter(Parameter::Boolean(true))),
                Some(FilterExpression::Path(EntityQueryPath::Archived)),
            ))),
            Filter::Any(vec![Filter::Equal(
                Some(FilterExpression::Path(EntityQueryPath::Version)),
                Some(FilterExpression::Parameter(text("latest"))),
            )]),
        ])
    );
}

#[test]
fn link_index_is_coerced_to_an_integer() {
    let mut filter = Filter::<Link>::Equal(
        Some(FilterExpression::Parameter(number(2.5))),
        Some(FilterExpression::Path(LinkQueryPath::Index)),
    );
    assert_eq!(filter.convert_parameters(), Ok(()));
    assert_eq!(
        filter,
        Filter::Equal(
            Some(FilterExpression::Parameter(Parameter::SignedInteger(3))),
            Some(FilterExpression::Path(LinkQueryPath::Index)),
        )
    );
}

#[test]
fn comparisons_without_a_path_are_left_alone() {
    let build = || {
        Filter::<DataType>::All(vec![
            Filter::Equal(
                Some(FilterExpression::Parameter(text("a"))),
                Some(FilterExpression::Parameter(number(1.0))),
            ),
            Filter::Equal(
                Some(FilterExpression::Path(DataTypeQueryPath::OwnedById)),
                Some(FilterExpression::Path(DataTypeQueryPath::Title)),
            ),
            Filter::NotEqual(Some(FilterExpression::Path(DataTypeQueryPath::Description)), None),
            Filter::Equal(None, Some(FilterExpression::Parameter(Parameter::Boolean(true)))),
            Filter::Equal(None, None),
        ])
    };
    let mut filter = build();
    assert_eq!(filter.convert_parameters(), Ok(()));
    assert_eq!(filter, build());
}

#[test]
fn first_failure_ends_the_walk() {
    let mut filter = Filter::<Entity>::All(vec![
        Filter::Equal(
            Some(FilterExpression::Path(EntityQueryPath::Id)),
            Some(FilterExpression::Parameter(text(UUID_TEXT))),
        ),
        Filter::Equal(
            Some(FilterExpression::Path(EntityQueryPath::Archived)),
            Some(FilterExpression::Parameter(text("yes"))),
        ),
        Filter::Equal(
            Some(FilterExpression::Path(EntityQueryPath::OwnedById)),
            Some(FilterExpression::Parameter(text(UUID_TEXT))),
        ),
    ]);
    let error = filter.convert_parameters().unwrap_err();
    assert_eq!(error.actual(), &text("yes"));
    assert_eq!(error.expected(), ParameterType::Boolean);
    assert_eq!(
        filter,
        Filter::All(vec![
            Filter::Equal(
                Some(FilterExpression::Path(EntityQueryPath::Id)),
                Some(FilterExpression::Parameter(Parameter::Uuid(UUID_VALUE))),
            ),
            Filter::Equal(
                Some(FilterExpression::Path(EntityQueryPath::Archived)),
                Some(FilterExpression::Parameter(text("yes"))),
            ),
            Filter::Equal(
                Some(FilterExpression::Path(EntityQueryPath::OwnedById)),
                Some(FilterExpression::Parameter(text(UUID_TEXT))),
            ),
        ])
    );
}

#[test]
fn second_coercion_changes_nothing_where_the_first_changed_nothing() {
    let build = || {
        Filter::<DataType>::All(vec![
            Filter::Equal(
                Some(FilterExpression::Path(DataTypeQueryPath::Version)),
                Some(FilterExpression::Parameter(text("latest"))),
            ),
            Filter::Equal(
                Some(FilterExpression::Path(DataTypeQueryPath::Title)),
                Some(FilterExpression::Parameter(text("Text"))),
            ),
        ])
    };
    let mut filter = build();
    assert_eq!(filter.convert_parameters(), Ok(()));
    assert_eq!(filter, build());
    assert_eq!(filter.convert_parameters(), Ok(()));
    assert_eq!(filter, build());
}

#[test]
fn second_coercion_keeps_what_the_first_converted() {
    let mut filter = Filter::<Entity>::All(vec![
        Filter::Equal(
            Some(FilterExpression::Path(EntityQueryPath::Id)),
            Some(FilterExpression::Parameter(text(UUID_TEXT))),
        ),
        Filter::Not(Box::new(Filter::Equal(
            Some(FilterExpression::Parameter(text("latest"))),
            Some(FilterExpression::Path(EntityQueryPath::Version)),
        ))),
    ]);
    assert_eq!(filter.convert_parameters(), Ok(()));
    let once = Filter::<Entity>::All(vec![
        Filter::Equal(
            Some(FilterExpression::Path(EntityQueryPath::Id)),
            Some(FilterExpression::Parameter(Parameter::Uuid(UUID_VALUE))),
        ),
        Filter::Not(Box::new(Filter::Equal(
            Some(FilterExpression::Parameter(text("latest"))),
            Some(FilterExpression::Path(EntityQueryPath::Version)),
        ))),
    ]);
    assert_eq!(filter, once);
    assert_eq!(filter.convert_parameters(), Ok(()));
    assert_eq!(filter, once);

    let mut filter = Filter::<Link>::Equal(
        Some(FilterExpression::Parameter(number(1.0))),
        Some(FilterExpression::Path(LinkQueryPath::Index)),
    );
    assert_eq!(filter.convert_parameters(), Ok(()));
    assert_eq!(filter.convert_parameters(), Ok(()));
    assert_eq!(
        filter,
        Filter::Equal(
            Some(FilterExpression::Parameter(Parameter::SignedInteger(1))),
            Some(FilterExpression::Path(LinkQueryPath::Index)),
        )
    );
}

#[test]
fn converted_forms_are_kept_by_their_type() {
    let mut parameter = Parameter::Uuid(UUID_VALUE);
    assert_eq!(parameter.convert_to_parameter_type(ParameterType::Uuid), Ok(()));
    assert_eq!(parameter, Parameter::Uuid(UUID_VALUE));
    for value in [0, 1, i64::MAX] {
        let mut parameter = Parameter::SignedInteger(value);
        assert_eq!(parameter.convert_to_parameter_type(ParameterType::UnsignedInteger), Ok(()));
        assert_eq!(parameter, Parameter::SignedInteger(value));
    }
    for value in [-1, i64::MIN] {
        let mut parameter = Parameter::SignedInteger(value);
        let error =
            parameter.convert_to_parameter_type(ParameterType::UnsignedInteger).unwrap_err();
        assert_eq!(error.actual(), &Parameter::SignedInteger(value));
        assert_eq!(error.expected(), ParameterType::UnsignedInteger);
        assert_eq!(parameter, Parameter::SignedInteger(value));
    }
}

#[test]
fn constructed_filters_coerce() {
    let id = EntityId::new(UUID_VALUE);
    let mut filter = Filter::for_latest_entity_by_entity_id(id);
    assert_eq!(filter.convert_parameters(), Ok(()));
    assert_eq!(filter, Filter::for_latest_entity_by_entity_id(id));
    let mut filter = Filter::for_link_by_latest_source_entity(id);
    assert_eq!(filter.convert_parameters(), Ok(()));
    assert_eq!(filter, Filter::for_link_by_latest_source_entity(id));
}

#[test]
fn constructed_filters_hold_typed_parameters() {
    let id = EntityId::new(UUID_VALUE);
    assert_eq!(id.as_uuid(), UUID_VALUE);
    assert_eq!(
        Filter::for_latest_entity_by_entity_id(id),
        Filter::All(vec![
            Filter::Equal(
                Some(FilterExpression::Path(EntityQueryPath::Version)),
                Some(FilterExpression::Parameter(text("latest"))),
            ),
            Filter::Equal(
                Some(FilterExpression::Path(EntityQueryPath::Id)),
                Some(FilterExpression::Parameter(Parameter::Uuid(UUID_VALUE))),
            ),
        ])
    );
    assert_eq!(
        Filter::for_link_by_latest_source_entity(id),
        Filter::Equal(
            Some(FilterExpression::Path(LinkQueryPath::Source(Some(EntityQueryPath::Id)))),
            Some(FilterExpression::Parameter(Parameter::Uuid(UUID_VALUE))),
        )
    );
    assert_eq!(
        Filter::for_all_latest_entities(),
        Filter::Equal(
            Some(FilterExpression::Path(EntityQueryPath::Version)),
            Some(FilterExpression::Parameter(text("latest"))),
        )
    );
}

#[test]
fn expected_types_of_paths() {
    assert_eq!(DataTypeQueryPath::Version.expected_type(), ParameterType::Any);
    assert_eq!(DataTypeQueryPath::BaseUri.expected_type(), ParameterType::BaseUri);
    assert_eq!(DataTypeQueryPath::VersionedUri.expected_type(), ParameterType::VersionedUri);
    assert_eq!(DataTypeQueryPath::OwnedById.expected_type(), ParameterType::Uuid);
    assert_eq!(DataTypeQueryPath::Description.expected_type(), ParameterType::Text);
    assert_eq!(EntityQueryPath::Version.expected_type(), ParameterType::Timestamp);
    assert_eq!(EntityQueryPath::Archived.expected_type(), ParameterType::Boolean);
    assert_eq!(LinkQueryPath::Index.expected_type(), ParameterType::UnsignedInteger);
    assert_eq!(LinkQueryPath::Source(None).expected_type(), ParameterType::Uuid);
    assert_eq!(
        LinkQueryPath::Target(Some(EntityQueryPath::Archived)).expected_type(),
        ParameterType::Boolean
    );
}

#[test]
fn conversion_errors_read_as_messages() {
    let mut parameter = text("yes");
    let error = parameter.convert_to_parameter_type(ParameterType::Boolean).unwrap_err();
    assert_eq!(error.message("yes"), "could not convert `yes` to boolean");
    let mut parameter = number(-1.5);
    let error = parameter.convert_to_parameter_type(ParameterType::UnsignedInteger).unwrap_err();
    assert_eq!(error.message("-1.5"), "could not convert `-1.5` to unsigned integer");
    assert_eq!(ParameterType::Uuid.name(), "UUID");
    assert_eq!(ParameterType::BaseUri.name(), "base URI");
    assert_eq!(ParameterType::VersionedUri.name(), "versioned URI");
    assert_eq!(ParameterType::Timestamp.name(), "timestamp");
    assert_eq!(ParameterType::Any.name(), "any");
    assert_eq!(ParameterType::Number.name(), "number");
    assert_eq!(ParameterType::Text.name(), "text");
}
