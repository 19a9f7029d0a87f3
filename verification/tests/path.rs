use hash_graph::path::{
    DataTypeQueryPath, EntityQueryPath, EntityTypeQueryPath, LinkQueryPath, OntologyPath,
    PropertyTypeQueryPath, RecordPath,
};

fn strings(segments: &[&str]) -> Vec<String> {
    segments.iter().map(|segment| (*segment).to_owned()).collect()
}

fn round_trip<P: RecordPath + PartialEq + std::fmt::Debug>(path: P, segments: &[&str]) {
    assert_eq!(path.to_segments(), strings(segments));
    assert_eq!(P::from_segments(&strings(segments)), Some(path));
}

#[test]
fn data_type_paths() {
    round_trip(DataTypeQueryPath::OwnedById, &["ownedById"]);
    round_trip(DataTypeQueryPath::BaseUri, &["baseUri"]);
    round_trip(DataTypeQueryPath::VersionedUri, &["versionedUri"]);
    round_trip(DataTypeQueryPath::Version, &["version"]);
    round_trip(DataTypeQueryPath::Title, &["title"]);
    round_trip(DataTypeQueryPath::Description, &["description"]);
    round_trip(DataTypeQueryPath::Type, &["type"]);
    assert_eq!(DataTypeQueryPath::from_segments(&strings(&[])), None);
    assert_eq!(DataTypeQueryPath::from_segments(&strings(&["Version"])), None);
    assert_eq!(DataTypeQueryPath::from_segments(&strings(&["version", "title"])), None);
    assert_eq!(
        DataTypeQueryPath::parse_from(&strings(&["version", "title"]), 1),
        Some(DataTypeQueryPath::Title)
    );
}

#[test]
fn property_type_paths() {
    round_trip(PropertyTypeQueryPath::Version, &["version"]);
    round_trip(PropertyTypeQueryPath::BaseUri, &["baseUri"]);
    round_trip(
        PropertyTypeQueryPath::DataTypes(DataTypeQueryPath::Title),
        &["dataTypes", "title"],
    );
    round_trip(PropertyTypeQueryPath::DataTypes(DataTypeQueryPath::Type), &["dataTypes", "type"]);
    assert_eq!(PropertyTypeQueryPath::from_segments(&strings(&["type"])), None);
    assert_eq!(PropertyTypeQueryPath::from_segments(&strings(&["dataTypes"])), None);
}

#[test]
fn entity_type_paths() {
    round_trip(EntityTypeQueryPath::Title, &["title"]);
    round_trip(
        EntityTypeQueryPath::Properties(PropertyTypeQueryPath::DataTypes(
            DataTypeQueryPath::VersionedUri,
        )),
        &["properties", "dataTypes", "versionedUri"],
    );
    assert_eq!(EntityTypeQueryPath::from_segments(&strings(&["properties", "type"])), None);
}

#[test]
fn entity_paths() {
    round_trip(EntityQueryPath::Id, &["id"]);
    round_trip(EntityQueryPath::OwnedById, &["ownedById"]);
    round_trip(EntityQueryPath::CreatedById, &["createdById"]);
    round_trip(EntityQueryPath::UpdatedById, &["updatedById"]);
    round_trip(EntityQueryPath::Version, &["version"]);
    round_trip(EntityQueryPath::Archived, &["archived"]);
    round_trip(EntityQueryPath::Type(EntityTypeQueryPath::BaseUri), &["type", "baseUri"]);
    assert_eq!(EntityQueryPath::from_segments(&strings(&["type"])), None);
    assert_eq!(EntityQueryPath::from_segments(&strings(&["title"])), None);
}

#[test]
fn link_paths() {
    round_trip(LinkQueryPath::OwnedById, &["ownedById"]);
    round_trip(LinkQueryPath::Index, &["index"]);
    round_trip(LinkQueryPath::Source(None), &["source"]);
    round_trip(LinkQueryPath::Target(None), &["target"]);
    round_trip(LinkQueryPath::Source(Some(EntityQueryPath::Id)), &["source", "id"]);
    round_trip(
        LinkQueryPath::Target(Some(EntityQueryPath::Type(EntityTypeQueryPath::Version))),
        &["target", "type", "version"],
    );
    round_trip(LinkQueryPath::Type(EntityTypeQueryPath::Title), &["type", "title"]);
    assert_eq!(LinkQueryPath::from_segments(&strings(&["source", "title"])), None);
    assert_eq!(LinkQueryPath::from_segments(&strings(&["index", "id"])), None);
}

#[test]
fn ontology_paths() {
    assert_eq!(DataTypeQueryPath::version(), DataTypeQueryPath::Version);
    assert_eq!(DataTypeQueryPath::base_uri(), DataTypeQueryPath::BaseUri);
    assert_eq!(DataTypeQueryPath::versioned_uri(), DataTypeQueryPath::VersionedUri);
    assert_eq!(PropertyTypeQueryPath::version(), PropertyTypeQueryPath::Version);
    assert_eq!(EntityTypeQueryPath::base_uri(), EntityTypeQueryPath::BaseUri);
}
