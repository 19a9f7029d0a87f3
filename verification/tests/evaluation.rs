use hash_graph::evaluation::{OntologyRecord, Record};
use hash_graph::filter::{Filter, FilterExpression};
use hash_graph::identifier::{BaseUri, VersionedUri};
use hash_graph::number::Number;
use hash_graph::parameter::Parameter;
use hash_graph::path::{
    DataType, DataTypeQueryPath, EntityType, EntityTypeQueryPath, PropertyTypeQueryPath,
};
use hash_graph::wire::JsonValue;

fn record(base: &str, version: u32, latest: bool, description: Option<&str>) -> OntologyRecord {
    OntologyRecord {
        id: VersionedUri::new(BaseUri::new(base.to_owned()).unwrap(), version),
        owned_by: 5,
        title: "Text".to_owned(),
        description: description.map(str::to_owned),
        kind: "string".to_owned(),
        latest,
    }
}

fn records() -> Vec<OntologyRecord> {
    vec![
        record("X/", 1, false, Some("first")),
        record("X/", 2, false, None),
        record("X/", 3, true, Some("third")),
        record("Y/", 1, true, None),
    ]
}

fn string(text: &str) -> JsonValue {
    JsonValue::String(text.to_owned())
}

fn object(key: &str, value: JsonValue) -> JsonValue {
    JsonValue::Object(vec![(key.to_owned(), value)])
}

fn path(segment: &str) -> JsonValue {
    object("path", JsonValue::Array(vec![string(segment)]))
}

fn parameter(value: JsonValue) -> JsonValue {
    object("parameter", value)
}

fn comparison(key: &str, lhs: JsonValue, rhs: JsonValue) -> JsonValue {
    object(key, JsonValue::Array(vec![lhs, rhs]))
}

fn selected(json: &JsonValue) -> Vec<(String, u32)> {
    let mut filter = Filter::<DataType>::from_json(json).expect("could not deserialize filter");
    filter.convert_parameters().expect("could not convert parameters");
    records()
        .iter()
        .filter(|record| filter.matches(*record))
        .map(|record| (record.id.base_uri().as_str().to_owned(), record.id.version()))
        .collect()
}

fn path_side(path: DataTypeQueryPath) -> Option<FilterExpression<DataType>> {
    Some(FilterExpression::Path(path))
}

fn text_side(text: &str) -> Option<FilterExpression<DataType>> {
    Some(FilterExpression::Parameter(Parameter::Text(text.to_owned())))
}

#[test]
fn latest_matches_the_newest_version_of_each_record() {
    let json = comparison("equal", path("version"), parameter(string("latest")));
    assert_eq!(selected(&json), vec![("X/".to_owned(), 3), ("Y/".to_owned(), 1)]);
    let filter = Filter::<DataType>::for_latest_version();
    let matched: Vec<bool> = records().iter().map(|record| filter.matches(record)).collect();
    assert_eq!(matched, vec![false, false, true, true]);
}

#[test]
fn base_and_version_match_one_record_or_none() {
    let query = |base: &str, version: f64| {
        object(
            "all",
            JsonValue::Array(vec![
                comparison("equal", path("baseId"), parameter(string(base))),
                comparison(
                    "equal",
                    path("version"),
                    parameter(JsonValue::Number(Number::from_bits(version.to_bits()))),
                ),
            ]),
        )
    };
    assert_eq!(selected(&query("X/", 1.0)), vec![("X/".to_owned(), 1)]);
    assert_eq!(selected(&query("Y/", 1.0)), vec![("Y/".to_owned(), 1)]);
    assert_eq!(selected(&query("Z/", 1.0)), vec![]);
    assert_eq!(selected(&query("Y/", 2.0)), vec![]);
    assert_eq!(selected(&query("X/", 1.5)), vec![]);
    let id = VersionedUri::new(BaseUri::new("X/".to_owned()).unwrap(), 2);
    let filter = Filter::<DataType>::for_versioned_uri(&id);
    let matched: Vec<bool> = records().iter().map(|record| filter.matches(record)).collect();
    assert_eq!(matched, vec![false, true, false, false]);
}

#[test]
fn not_equal_to_null_matches_what_is_present() {
    let json = comparison("notEqual", path("description"), JsonValue::Null);
    assert_eq!(selected(&json), vec![("X/".to_owned(), 1), ("X/".to_owned(), 3)]);
    let json = comparison("equal", JsonValue::Null, path("description"));
    assert_eq!(selected(&json), vec![("X/".to_owned(), 2), ("Y/".to_owned(), 1)]);
}

#[test]
fn empty_combinators() {
    let any_record = record("X/", 1, true, None);
    assert!(Filter::<DataType>::All(vec![]).matches(&any_record));
    assert!(!Filter::<DataType>::Any(vec![]).matches(&any_record));
    assert!(!Filter::<DataType>::Not(Box::new(Filter::All(vec![]))).matches(&any_record));
    assert!(Filter::<DataType>::Not(Box::new(Filter::Any(vec![]))).matches(&any_record));
}

#[test]
fn comparisons_of_missing_sides() {
    let any_record = record("X/", 1, true, None);
    assert!(Filter::<DataType>::Equal(None, None).matches(&any_record));
    assert!(!Filter::<DataType>::NotEqual(None, None).matches(&any_record));
    assert!(!Filter::<DataType>::Equal(text_side("a"), None).matches(&any_record));
    assert!(Filter::<DataType>::NotEqual(None, text_side("a")).matches(&any_record));
    assert!(Filter::<DataType>::Equal(path_side(DataTypeQueryPath::Description), None)
        .matches(&any_record));
    assert!(!Filter::<DataType>::Equal(path_side(DataTypeQueryPath::Title), None)
        .matches(&any_record));
}

#[test]
fn comparisons_of_values() {
    let subject = record("X/", 7, false, Some("Text"));
    let holds = |filter: Filter<DataType>| filter.matches(&subject);
    assert!(holds(Filter::Equal(path_side(DataTypeQueryPath::Title), text_side("Text"))));
    assert!(holds(Filter::Equal(text_side("Text"), path_side(DataTypeQueryPath::Title))));
    assert!(!holds(Filter::Equal(path_side(DataTypeQueryPath::Title), text_side("text"))));
    assert!(holds(Filter::Equal(
        path_side(DataTypeQueryPath::Title),
        path_side(DataTypeQueryPath::Description)
    )));
    assert!(!holds(Filter::Equal(
        path_side(DataTypeQueryPath::Title),
        path_side(DataTypeQueryPath::Type)
    )));
    assert!(holds(Filter::Equal(text_side("a"), text_side("a"))));
    assert!(!holds(Filter::Equal(text_side("a"), text_side("b"))));
    assert!(holds(Filter::Equal(
        path_side(DataTypeQueryPath::OwnedById),
        Some(FilterExpression::Parameter(Parameter::Uuid(5)))
    )));
    assert!(holds(Filter::Equal(
        path_side(DataTypeQueryPath::Version),
        Some(FilterExpression::Parameter(Parameter::SignedInteger(7)))
    )));
    assert!(holds(Filter::Equal(
        path_side(DataTypeQueryPath::VersionedUri),
        text_side("X/v/7")
    )));
    assert!(!holds(Filter::Equal(path_side(DataTypeQueryPath::Version), text_side("latest"))));
    assert!(!holds(Filter::Equal(path_side(DataTypeQueryPath::Title), text_side("latest"))));
    assert!(holds(Filter::Any(vec![
        Filter::Equal(path_side(DataTypeQueryPath::Title), text_side("no")),
        Filter::Equal(path_side(DataTypeQueryPath::Type), text_side("string")),
    ])));
    assert!(!holds(Filter::All(vec![
        Filter::Equal(path_side(DataTypeQueryPath::Title), text_side("Text")),
        Filter::Equal(path_side(DataTypeQueryPath::Type), text_side("number")),
    ])));
}

#[test]
fn records_show_their_fields() {
    let subject = record("X/", 7, true, None);
    assert_eq!(subject.value_at(&DataTypeQueryPath::Version), Some(Parameter::SignedInteger(7)));
    assert_eq!(
        subject.value_at(&DataTypeQueryPath::BaseUri),
        Some(Parameter::Text("X/".to_owned()))
    );
    assert_eq!(subject.value_at(&DataTypeQueryPath::Description), None);
    assert!(Record::<DataTypeQueryPath>::is_latest(&subject));
    assert!(Parameter::Uuid(1).same(&Parameter::Uuid(1)));
    assert!(!Parameter::Uuid(1).same(&Parameter::SignedInteger(1)));
}

#[test]
fn entity_types_are_seen_through_their_own_paths() {
    let subject = record("X/", 7, true, Some("Text"));
    let holds = |filter: Filter<EntityType>| filter.matches(&subject);
    let side = |path: EntityTypeQueryPath| Some(FilterExpression::<EntityType>::Path(path));
    let text = |value: &str| {
        Some(FilterExpression::<EntityType>::Parameter(Parameter::Text(value.to_owned())))
    };
    assert!(holds(Filter::Equal(side(EntityTypeQueryPath::Version), text("latest"))));
    assert!(holds(Filter::Equal(side(EntityTypeQueryPath::BaseUri), text("X/"))));
    assert!(holds(Filter::Equal(side(EntityTypeQueryPath::Title), text("Text"))));
    assert!(holds(Filter::NotEqual(side(EntityTypeQueryPath::Description), None)));
    assert!(holds(Filter::Equal(
        side(EntityTypeQueryPath::Properties(PropertyTypeQueryPath::Title)),
        None
    )));
    assert_eq!(
        subject.value_at(&EntityTypeQueryPath::Properties(PropertyTypeQueryPath::Version)),
        None
    );
    assert_eq!(
        subject.value_at(&EntityTypeQueryPath::Version),
        Some(Parameter::SignedInteger(7))
    );
    assert!(holds(Filter::for_latest_version()));
}
