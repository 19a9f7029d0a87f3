use hash_graph::conversion::ExpressionConversionError;
use hash_graph::expression::{Expression, Literal, Path};
use hash_graph::filter::{Filter, FilterExpression};
use hash_graph::identifier::{BaseUri, VersionedUri};
use hash_graph::parameter::Parameter;
use hash_graph::path::{DataType, DataTypeQueryPath};

#[test]
fn convert_expression() {
    assert_eq!(
        Filter::try_from(Expression::for_latest_version()).expect("could not convert expression"),
        Filter::Equal(
            Some(FilterExpression::<DataType>::Path(DataTypeQueryPath::Version)),
            Some(FilterExpression::<DataType>::Parameter(Parameter::Text(
                "latest".to_owned()
            ))),
        )
    );

    let versioned_id = VersionedUri::new(
        BaseUri::new("https://blockprotocol.org/@blockprotocol/types/data-type/text/".to_owned())
            .expect("invalid base uri"),
        1,
    );
    assert_eq!(
        Filter::try_from(Expression::for_versioned_uri(&versioned_id))
            .expect("could not convert expression"),
        Filter::Equal(
            Some(FilterExpression::<DataType>::Path(
                DataTypeQueryPath::VersionedUri
            )),
            Some(FilterExpression::<DataType>::Parameter(Parameter::Text(
                versioned_id.to_string()
            ))),
        )
    );
}

#[test]
fn versioned_uri_text() {
    let id = VersionedUri::new(BaseUri::new("https://example.com/a/".to_owned()).unwrap(), 120);
    assert_eq!(id.to_string(), "https://example.com/a/v/120");
}

#[test]
fn bare_nodes_are_refused() {
    let bare = Expression::Literal(Literal::Bool(true));
    assert_eq!(
        Filter::<DataType>::try_from(bare),
        Err(ExpressionConversionError::Unsupported)
    );
    let path = Expression::Path(Path { segments: vec!["version".to_owned()] });
    assert_eq!(
        Filter::<DataType>::try_from(path),
        Err(ExpressionConversionError::Unsupported)
    );
}

fn path_node(segment: &str) -> Expression {
    Expression::Path(Path { segments: vec![segment.to_owned()] })
}

fn text_node(text: &str) -> Expression {
    Expression::Literal(Literal::String(text.to_owned()))
}

fn path_side(path: DataTypeQueryPath) -> Option<FilterExpression<DataType>> {
    Some(FilterExpression::Path(path))
}

fn text_side(text: &str) -> Option<FilterExpression<DataType>> {
    Some(FilterExpression::Parameter(Parameter::Text(text.to_owned())))
}

#[test]
fn more_than_two_operands_compare_neighbours_only() {
    let expression = Expression::Eq(vec![
        path_node("title"),
        text_node("a"),
        path_node("description"),
        text_node("b"),
    ]);
    assert_eq!(
        Filter::<DataType>::try_from(expression),
        Ok(Filter::All(vec![
            Filter::Equal(path_side(DataTypeQueryPath::Title), text_side("a")),
            Filter::Equal(text_side("a"), path_side(DataTypeQueryPath::Description)),
            Filter::Equal(path_side(DataTypeQueryPath::Description), text_side("b")),
        ]))
    );
    let expression = Expression::Ne(vec![path_node("title"), text_node("a"), text_node("b")]);
    assert_eq!(
        Filter::<DataType>::try_from(expression),
        Ok(Filter::All(vec![
            Filter::NotEqual(path_side(DataTypeQueryPath::Title), text_side("a")),
            Filter::NotEqual(text_side("a"), text_side("b")),
        ]))
    );
}

#[test]
fn null_operand_is_the_absence_of_a_value() {
    let expression = Expression::Ne(vec![path_node("description"), Expression::Literal(Literal::Null)]);
    assert_eq!(
        Filter::<DataType>::try_from(expression),
        Ok(Filter::NotEqual(path_side(DataTypeQueryPath::Description), None))
    );
    let expression =
        Expression::Eq(vec![Expression::Literal(Literal::Null), Expression::Literal(Literal::Null)]);
    assert_eq!(Filter::<DataType>::try_from(expression), Ok(Filter::Equal(None, None)));
}

#[test]
fn literals_become_parameters() {
    let expression = Expression::Eq(vec![
        Expression::Literal(Literal::Bool(true)),
        Expression::Literal(Literal::Float(hash_graph::number::Number::from_bits(
            1.5f64.to_bits(),
        ))),
    ]);
    assert_eq!(
        Filter::<DataType>::try_from(expression),
        Ok(Filter::Equal(
            Some(FilterExpression::Parameter(Parameter::Boolean(true))),
            Some(FilterExpression::Parameter(Parameter::Number(
                hash_graph::number::Number::from_bits(1.5f64.to_bits())
            ))),
        ))
    );
    assert_eq!(Parameter::from_literal(Literal::Null), None);
    assert_eq!(Parameter::from_literal(Literal::List(vec![])), None);
    assert_eq!(Parameter::from_literal(Literal::Version(1)), None);
    assert_eq!(Parameter::from_literal(Literal::Bool(false)), Some(Parameter::Boolean(false)));
    assert_eq!(Parameter::from_optional_literal(Literal::Null), Ok(None));
    assert_eq!(
        Parameter::from_optional_literal(Literal::String("a".to_owned())),
        Ok(Some(Parameter::Text("a".to_owned())))
    );
    assert_eq!(
        Parameter::from_optional_literal(Literal::Version(1)),
        Err(ExpressionConversionError::Unsupported)
    );
}

#[test]
fn combinators_are_converted_member_by_member() {
    let expression = Expression::All(vec![
        Expression::Any(vec![]),
        Expression::Eq(vec![path_node("version"), text_node("latest")]),
    ]);
    assert_eq!(
        Filter::<DataType>::try_from(expression),
        Ok(Filter::All(vec![
            Filter::Any(vec![]),
            Filter::Equal(path_side(DataTypeQueryPath::Version), text_side("latest")),
        ]))
    );
}

#[test]
fn unsupported_nodes_are_refused() {
    let refused = vec![
        Expression::Eq(vec![]),
        Expression::Eq(vec![path_node("version")]),
        Expression::Ne(vec![text_node("a")]),
        Expression::Field(Literal::String("a".to_owned())),
        Expression::Eq(vec![path_node("version"), Expression::All(vec![])]),
        Expression::Eq(vec![path_node("version"), Expression::Field(Literal::Null)]),
        Expression::Eq(vec![path_node("version"), Expression::Literal(Literal::List(vec![]))]),
        Expression::Eq(vec![path_node("version"), Expression::Literal(Literal::Version(2))]),
        Expression::All(vec![Expression::Any(vec![]), text_node("a")]),
    ];
    for expression in refused {
        assert_eq!(
            Filter::<DataType>::try_from(expression),
            Err(ExpressionConversionError::Unsupported)
        );
    }
    assert_eq!(
        FilterExpression::<DataType>::try_from(Expression::Literal(Literal::Null)),
        Err(ExpressionConversionError::Unsupported)
    );
    assert_eq!(
        FilterExpression::<DataType>::try_from_side(Expression::Literal(Literal::Null)),
        Ok(None)
    );
}

#[test]
fn unknown_path_is_reported_with_its_segments() {
    let expression = Expression::Eq(vec![
        text_node("a"),
        path_node("nowhere"),
        Expression::Field(Literal::Null),
    ]);
    assert_eq!(
        Filter::<DataType>::try_from(expression),
        Err(ExpressionConversionError::InvalidPath(Path { segments: vec!["nowhere".to_owned()] }))
    );
}

#[test]
fn ontology_filters() {
    assert_eq!(
        Filter::<DataType>::for_latest_version(),
        Filter::Equal(path_side(DataTypeQueryPath::Version), text_side("latest"))
    );
    let id = VersionedUri::new(BaseUri::new("https://example.com/types/text/".to_owned()).unwrap(), 3);
    assert_eq!(
        Filter::<DataType>::for_versioned_uri(&id),
        Filter::All(vec![
            Filter::Equal(
                path_side(DataTypeQueryPath::BaseUri),
                text_side("https://example.com/types/text/")
            ),
            Filter::Equal(
                path_side(DataTypeQueryPath::Version),
                Some(FilterExpression::Parameter(Parameter::SignedInteger(3)))
            ),
        ])
    );
}

#[test]
fn base_uri_must_end_with_a_slash() {
    assert!(BaseUri::new("https://example.com/".to_owned()).is_ok());
    assert!(BaseUri::new("https://example.com".to_owned()).is_err());
    assert!(BaseUri::new(String::new()).is_err());
    let base = BaseUri::new("https://example.com/".to_owned()).unwrap();
    assert_eq!(base.as_str(), "https://example.com/");
}

#[test]
fn versions_are_spelled_in_decimal() {
    let base = || BaseUri::new("a/".to_owned()).unwrap();
    assert_eq!(VersionedUri::new(base(), 0).to_string(), "a/v/0");
    assert_eq!(VersionedUri::new(base(), 9).to_string(), "a/v/9");
    assert_eq!(VersionedUri::new(base(), 10).to_string(), "a/v/10");
    assert_eq!(VersionedUri::new(base(), u32::MAX).to_string(), "a/v/4294967295");
    assert_eq!(hash_graph::identifier::decimal_text(u64::MAX), u64::MAX.to_string());
}
