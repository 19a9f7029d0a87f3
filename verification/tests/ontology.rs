use hash_graph::ontology::{NewOntologyRecord, OntologyStore};
use hash_graph::evaluation::find_roots;
use hash_graph::filter::Filter;
use hash_graph::identifier::{BaseUri, VersionedUri};
use hash_graph::number::Number;
use hash_graph::path::{DataType, EntityType, PropertyType, QueryRecord};
use hash_graph::wire::JsonValue;

fn id(base: &str, version: u32) -> VersionedUri {
    VersionedUri::new(BaseUri::new(base.to_owned()).unwrap(), version)
}

fn revision(base: &str, version: u32, description: Option<&str>) -> NewOntologyRecord {
    NewOntologyRecord {
        id: id(base, version),
        owned_by: 5,
        title: "Text".to_owned(),
        description: description.map(str::to_owned),
        kind: "string".to_owned(),
    }
}

fn store() -> OntologyStore {
    let mut store = OntologyStore::new();
    assert!(store.insert(revision("X/", 2, None)));
    assert!(store.insert(revision("Y/", 1, None)));
    assert!(store.insert(revision("X/", 1, Some("first"))));
    assert!(store.insert(revision("X/", 3, Some("third"))));
    assert!(store.insert(revision("Z/", 7, Some("only"))));
    store
}

fn string(text: &str) -> JsonValue {
    JsonValue::String(text.to_owned())
}

fn object(key: &str, value: JsonValue) -> JsonValue {
    JsonValue::Object(vec![(key.to_owned(), value)])
}

fn path(segment: &str) -> JsonValue {
    object("path", JsonValue::Array(vec![string(segment)]))
}

fn parameter(value: JsonValue) -> JsonValue {
    object("parameter", value)
}

fn comparison(key: &str, lhs: JsonValue, rhs: JsonValue) -> JsonValue {
    object(key, JsonValue::Array(vec![lhs, rhs]))
}

fn roots_of<T: QueryRecord>(store: &OntologyStore, json: &JsonValue) -> Vec<String>
where
    T::Path: hash_graph::path::OntologyPath,
{
    let mut filter = Filter::<T>::from_json(json).expect("could not deserialize filter");
    filter.convert_parameters().expect("could not convert parameters");
    store.find_roots(&filter).iter().map(|record| record.id.to_string()).collect()
}

fn roots(store: &OntologyStore, json: &JsonValue) -> Vec<String> {
    let found = roots_of::<DataType>(store, json);
    assert_eq!(roots_of::<PropertyType>(store, json), found);
    assert_eq!(roots_of::<EntityType>(store, json), found);
    found
}

#[test]
fn the_latest_mark_follows_from_the_versions_stored() {
    let store = store();
    let marks: Vec<(String, bool)> =
        store.records().iter().map(|record| (record.id.to_string(), record.latest)).collect();
    assert_eq!(
        marks,
        vec![
            ("X/v/2".to_owned(), false),
            ("Y/v/1".to_owned(), true),
            ("X/v/1".to_owned(), false),
            ("X/v/3".to_owned(), true),
            ("Z/v/7".to_owned(), true),
        ]
    );
    let mut store = OntologyStore::new();
    assert!(store.insert(revision("X/", 2, None)));
    assert!(store.records()[0].latest);
    assert!(store.insert(revision("X/", 1, None)));
    assert!(store.records()[0].latest);
    assert!(!store.records()[1].latest);
}

#[test]
fn an_identifier_is_stored_once() {
    let mut store = store();
    assert!(!store.insert(revision("X/", 3, Some("again"))));
    assert_eq!(store.records().len(), 5);
    assert_eq!(store.records()[3].description, Some("third".to_owned()));
    assert!(store.insert(revision("X/", 4, None)));
    assert!(!store.records()[3].latest);
    assert!(store.records()[5].latest);
}

#[test]
fn latest_finds_the_newest_revision_of_each_record() {
    let json = comparison("equal", path("version"), parameter(string("latest")));
    assert_eq!(roots(&store(), &json), vec!["Y/v/1", "X/v/3", "Z/v/7"]);
    assert_eq!(roots(&OntologyStore::new(), &json), Vec::<String>::new());
    let filter = Filter::<DataType>::for_latest_version();
    assert_eq!(store().find_roots(&filter).len(), 3);
    let filter = Filter::<EntityType>::for_latest_version();
    assert_eq!(store().find_roots(&filter).len(), 3);
}

#[test]
fn base_and_version_find_one_revision_or_none() {
    let query = |base: &str, version: f64| {
        object(
            "all",
            JsonValue::Array(vec![
                comparison("equal", path("baseId"), parameter(string(base))),
                comparison(
                    "equal",
                    path("version"),
                    parameter(JsonValue::Number(Number::from_bits(version.to_bits()))),
                ),
            ]),
        )
    };
    assert_eq!(roots(&store(), &query("X/", 1.0)), vec!["X/v/1"]);
    assert_eq!(roots(&store(), &query("Y/", 1.0)), vec!["Y/v/1"]);
    assert_eq!(roots(&store(), &query("Z/", 1.0)), Vec::<String>::new());
    assert_eq!(roots(&store(), &query("W/", 1.0)), Vec::<String>::new());
    let mut without = OntologyStore::new();
    assert!(without.insert(revision("X/", 2, None)));
    assert!(without.insert(revision("Y/", 1, None)));
    assert_eq!(roots(&without, &query("X/", 1.0)), Vec::<String>::new());
    let filter = Filter::<EntityType>::for_versioned_uri(&id("X/", 2));
    let found: Vec<String> =
        store().find_roots(&filter).iter().map(|record| record.id.to_string()).collect();
    assert_eq!(found, vec!["X/v/2"]);
}

#[test]
fn not_equal_to_null_finds_what_has_a_description() {
    let json = comparison("notEqual", path("description"), JsonValue::Null);
    assert_eq!(roots(&store(), &json), vec!["X/v/1", "X/v/3", "Z/v/7"]);
}

#[test]
fn roots_keep_the_order_of_the_records() {
    let store = store();
    let everything = Filter::<DataType>::All(vec![]);
    let nothing = Filter::<DataType>::Any(vec![]);
    assert_eq!(find_roots(&everything, store.records()).len(), 5);
    assert_eq!(find_roots(&nothing, store.records()).len(), 0);
    let found: Vec<u32> =
        find_roots(&everything, store.records()).iter().map(|record| record.id.version()).collect();
    assert_eq!(found, vec![2, 1, 1, 3, 7]);
}
