//! The queryable fields of each record kind.
//!
//! Every record kind has a closed enumeration of paths. A path says which
//! type of parameter it is compared with, and has a spelling as a list of
//! segments, from which it can be read back.

use crate::parameter::ParameterType;
use crate::text::{prefixed, single, text_is, texts};
use vstd::prelude::*;

verus! {

/// A queryable field of some record kind.
pub trait RecordPath: Sized + Copy {
    /// The type of parameter that the field is compared with.
    spec fn expected(self) -> ParameterType;

    /// The segments that spell the path.
    spec fn segments(self) -> Seq<Seq<char>>;

    /// The path that a list of segments spells, if any.
    spec fn parse(segments: Seq<Seq<char>>) -> Option<Self>;

    /// Whether the field is the version of the record itself.
    spec fn is_version(self) -> bool;

    fn expected_type(&self) -> (expected: ParameterType)
        ensures
            expected == self.expected(),
    ;

    fn names_version(&self) -> (version: bool)
        ensures
            version == self.is_version(),
    ;

    fn to_segments(&self) -> (segments: Vec<String>)
        ensures
            texts(segments@) == self.segments(),
    ;

    /// Reads the path that the segments from index `start` on spell.
    fn parse_from(segments: &Vec<String>, start: usize) -> (path: Option<Self>)
        requires
            start <= segments.len(),
        ensures
            path == Self::parse(texts(segments@).skip(start as int)),
    ;

    /// Reads the path that the segments spell.
    fn from_segments(segments: &Vec<String>) -> (path: Option<Self>)
        ensures
            path == Self::parse(texts(segments@)),
    {
        proof {
            assert(texts(segments@).skip(0) =~= texts(segments@));
        }
        Self::parse_from(segments, 0)
    }

    /// Reading the spelling of a path gives the path back.
    proof fn lemma_parse_segments(self)
        ensures
            Self::parse(self.segments()) == Some(self),
    ;
}

/// A kind of record that filters can be written for.
pub trait QueryRecord {
    type Path: RecordPath + core::fmt::Debug + PartialEq;
}

/// The paths that every ontology record kind has.
pub trait OntologyPath: RecordPath {
    spec fn base_uri_path() -> Self;

    spec fn versioned_uri_path() -> Self;

    spec fn version_path() -> Self;

    spec fn description_path() -> Self;

    /// The field of the record itself that the path names, by the name that
    /// the field has on a data type; none for a path that leads to another
    /// record.
    spec fn common(self) -> Option<DataTypeQueryPath>;

    fn to_common(&self) -> (field: Option<DataTypeQueryPath>)
        ensures
            field == self.common(),
    ;

    fn description() -> (path: Self)
        ensures
            path == Self::description_path(),
    ;

    /// The paths that every ontology record kind has name the fields they
    /// are called after and expect the same types of parameter, and the
    /// version of the record itself is the one field that is its version.
    proof fn lemma_ontology_paths()
        ensures
            Self::base_uri_path().common() == Some(DataTypeQueryPath::BaseUri),
            Self::versioned_uri_path().common() == Some(DataTypeQueryPath::VersionedUri),
            Self::version_path().common() == Some(DataTypeQueryPath::Version),
            Self::description_path().common() == Some(DataTypeQueryPath::Description),
            Self::base_uri_path().expected() == ParameterType::BaseUri,
            Self::version_path().expected() == ParameterType::Any,
            Self::description_path().expected() == ParameterType::Text,
            forall|path: Self|
                #[trigger] path.is_version() <==> path.common() == Some(
                    DataTypeQueryPath::Version,
                ),
    ;

    fn base_uri() -> (path: Self)
        ensures
            path == Self::base_uri_path(),
    ;

    fn versioned_uri() -> (path: Self)
        ensures
            path == Self::versioned_uri_path(),
    ;

    fn version() -> (path: Self)
        ensures
            path == Self::version_path(),
    ;
}

/// The fields of a data type.
#[derive(Clone, Copy, Debug, PartialEq, Eq, Structural)]
pub enum DataTypeQueryPath {
    OwnedById,
    BaseUri,
    VersionedUri,
    Version,
    Title,
    Description,
    Type,
}

impl DataTypeQueryPath {
    /// The field that a single segment names. The base and the versioned
    /// identifier each answer to two spellings.
    pub open spec fn parse_token(token: Seq<char>) -> Option<Self> {
        if token == "ownedById"@ {
            Some(DataTypeQueryPath::OwnedById)
        } else if token == "baseUri"@ || token == "baseId"@ {
            Some(DataTypeQueryPath::BaseUri)
        } else if token == "versionedUri"@ || token == "versionedId"@ {
            Some(DataTypeQueryPath::VersionedUri)
        } else if token == "version"@ {
            Some(DataTypeQueryPath::Version)
        } else if token == "title"@ {
            Some(DataTypeQueryPath::Title)
        } else if token == "description"@ {
            Some(DataTypeQueryPath::Description)
        } else if token == "type"@ {
            Some(DataTypeQueryPath::Type)
        } else {
            None
        }
    }

    /// The segment that names the field.
    pub open spec fn token(self) -> Seq<char> {
        match self {
            DataTypeQueryPath::OwnedById => "ownedById"@,
            DataTypeQueryPath::BaseUri => "baseUri"@,
            DataTypeQueryPath::VersionedUri => "versionedUri"@,
            DataTypeQueryPath::Version => "version"@,
            DataTypeQueryPath::Title => "title"@,
            DataTypeQueryPath::Description => "description"@,
            DataTypeQueryPath::Type => "type"@,
        }
    }

    fn from_token(token: &str) -> (path: Option<Self>)
        ensures
            path == Self::parse_token(token@),
    {
        if text_is(token, "ownedById") {
            Some(DataTypeQueryPath::OwnedById)
        } else if text_is(token, "baseUri") || text_is(token, "baseId") {
            Some(DataTypeQueryPath::BaseUri)
        } else if text_is(token, "versionedUri") || text_is(token, "versionedId") {
            Some(DataTypeQueryPath::VersionedUri)
        } else if text_is(token, "version") {
            Some(DataTypeQueryPath::Version)
        } else if text_is(token, "title") {
            Some(DataTypeQueryPath::Title)
        } else if text_is(token, "description") {
            Some(DataTypeQueryPath::Description)
        } else if text_is(token, "type") {
            Some(DataTypeQueryPath::Type)
        } else {
            None
        }
    }

    fn to_token(&self) -> (token: &'static str)
        ensures
            token@ == self.token(),
    {
        match self {
            DataTypeQueryPath::OwnedById => "ownedById",
            DataTypeQueryPath::BaseUri => "baseUri",
            DataTypeQueryPath::VersionedUri => "versionedUri",
            DataTypeQueryPath::Version => "version",
            DataTypeQueryPath::Title => "title",
            DataTypeQueryPath::Description => "description",
            DataTypeQueryPath::Type => "type",
        }
    }

    /// Reading the token of a field gives the field back.
    proof fn lemma_parse_token(self)
        ensures
            Self::parse_token(self.token()) == Some(self),
    {
        lemma_field_tokens();
    }
}

impl RecordPath for DataTypeQueryPath {
    open spec fn is_version(self) -> bool {
        self == DataTypeQueryPath::Version
    }

    open spec fn expected(self) -> ParameterType {
        match self {
            DataTypeQueryPath::OwnedById => ParameterType::Uuid,
            DataTypeQueryPath::BaseUri => ParameterType::BaseUri,
            DataTypeQueryPath::VersionedUri => ParameterType::VersionedUri,
            DataTypeQueryPath::Version => ParameterType::Any,
            DataTypeQueryPath::Title => ParameterType::Text,
            DataTypeQueryPath::Description => ParameterType::Text,
            DataTypeQueryPath::Type => ParameterType::Text,
        }
    }

    open spec fn segments(self) -> Seq<Seq<char>> {
        seq![self.token()]
    }

    open spec fn parse(segments: Seq<Seq<char>>) -> Option<Self> {
        if segments.len() == 1 {
            Self::parse_token(segments[0])
        } else {
            None
        }
    }

    fn expected_type(&self) -> (expected: ParameterType) {
        match self {
            DataTypeQueryPath::OwnedById => ParameterType::Uuid,
            DataTypeQueryPath::BaseUri => ParameterType::BaseUri,
            DataTypeQueryPath::VersionedUri => ParameterType::VersionedUri,
            DataTypeQueryPath::Version => ParameterType::Any,
            DataTypeQueryPath::Title => ParameterType::Text,
            DataTypeQueryPath::Description => ParameterType::Text,
            DataTypeQueryPath::Type => ParameterType::Text,
        }
    }

    fn names_version(&self) -> (version: bool) {
        match self {
            DataTypeQueryPath::Version => true,
            _ => false,
        }
    }

    fn to_segments(&self) -> (segments: Vec<String>) {
        single(self.to_token())
    }

    fn parse_from(segments: &Vec<String>, start: usize) -> (path: Option<Self>) {
        if segments.len() - start == 1 {
            Self::from_token(segments[start].as_str())
        } else {
            None
        }
    }

    proof fn lemma_parse_segments(self) {
        self.lemma_parse_token();
    }
}

impl OntologyPath for DataTypeQueryPath {
    open spec fn description_path() -> Self {
        DataTypeQueryPath::Description
    }

    open spec fn common(self) -> Option<DataTypeQueryPath> {
        Some(self)
    }

    fn to_common(&self) -> (field: Option<DataTypeQueryPath>) {
        Some(*self)
    }

    fn description() -> (path: Self) {
        DataTypeQueryPath::Description
    }

    proof fn lemma_ontology_paths() {
    }

    open spec fn base_uri_path() -> Self {
        DataTypeQueryPath::BaseUri
    }

    open spec fn versioned_uri_path() -> Self {
        DataTypeQueryPath::VersionedUri
    }

    open spec fn version_path() -> Self {
        DataTypeQueryPath::Version
    }

    fn base_uri() -> (path: Self) {
        DataTypeQueryPath::BaseUri
    }

    fn versioned_uri() -> (path: Self) {
        DataTypeQueryPath::VersionedUri
    }

    fn version() -> (path: Self) {
        DataTypeQueryPath::Version
    }
}


/// The tokens of the data type fields are spelled as stated, so no two
/// fields share a token.
proof fn lemma_field_tokens()
    ensures
        "ownedById"@.len() == 9,
        "baseUri"@.len() == 7,
        "baseId"@.len() == 6,
        "versionedUri"@.len() == 12,
        "versionedId"@.len() == 11,
        "version"@.len() == 7,
        "title"@.len() == 5,
        "description"@.len() == 11,
        "type"@.len() == 4,
        "ownedById"@[0] == 'o',
        "baseUri"@[0] == 'b',
        "version"@[0] == 'v',
        "versionedId"@[0] == 'v',
        "description"@[0] == 'd',
{
    reveal_strlit("ownedById");
    reveal_strlit("baseUri");
    reveal_strlit("baseId");
    reveal_strlit("versionedUri");
    reveal_strlit("versionedId");
    reveal_strlit("version");
    reveal_strlit("title");
    reveal_strlit("description");
    reveal_strlit("type");
}

/// The first segment of the segments from `start` on.
proof fn lemma_skip_head(segments: Seq<String>, start: int)
    requires
        0 <= start < segments.len(),
    ensures
        texts(segments).skip(start).len() == segments.len() - start,
        texts(segments).skip(start)[0] == segments[start]@,
        texts(segments).skip(start).skip(1) == texts(segments).skip(start + 1),
{
    assert(texts(segments).skip(start).skip(1) =~= texts(segments).skip(start + 1));
}

/// The fields of a property type.
#[derive(Clone, Copy, Debug, PartialEq, Eq, Structural)]
pub enum PropertyTypeQueryPath {
    OwnedById,
    BaseUri,
    VersionedUri,
    Version,
    Title,
    Description,
    /// A field of a data type that the property type refers to.
    DataTypes(DataTypeQueryPath),
}

impl PropertyTypeQueryPath {
    /// The field of the property type itself that answers to a field of the
    /// same name of a data type.
    pub open spec fn of_field(field: DataTypeQueryPath) -> Option<Self> {
        match field {
            DataTypeQueryPath::OwnedById => Some(PropertyTypeQueryPath::OwnedById),
            DataTypeQueryPath::BaseUri => Some(PropertyTypeQueryPath::BaseUri),
            DataTypeQueryPath::VersionedUri => Some(PropertyTypeQueryPath::VersionedUri),
            DataTypeQueryPath::Version => Some(PropertyTypeQueryPath::Version),
            DataTypeQueryPath::Title => Some(PropertyTypeQueryPath::Title),
            DataTypeQueryPath::Description => Some(PropertyTypeQueryPath::Description),
            DataTypeQueryPath::Type => None,
        }
    }

    /// The data type field of the same name, for a field of the property
    /// type itself.
    pub open spec fn field(self) -> Option<DataTypeQueryPath> {
        match self {
            PropertyTypeQueryPath::OwnedById => Some(DataTypeQueryPath::OwnedById),
            PropertyTypeQueryPath::BaseUri => Some(DataTypeQueryPath::BaseUri),
            PropertyTypeQueryPath::VersionedUri => Some(DataTypeQueryPath::VersionedUri),
            PropertyTypeQueryPath::Version => Some(DataTypeQueryPath::Version),
            PropertyTypeQueryPath::Title => Some(DataTypeQueryPath::Title),
            PropertyTypeQueryPath::Description => Some(DataTypeQueryPath::Description),
            PropertyTypeQueryPath::DataTypes(_) => None,
        }
    }

    fn from_field(field: DataTypeQueryPath) -> (path: Option<Self>)
        ensures
            path == Self::of_field(field),
    {
        match field {
            DataTypeQueryPath::OwnedById => Some(PropertyTypeQueryPath::OwnedById),
            DataTypeQueryPath::BaseUri => Some(PropertyTypeQueryPath::BaseUri),
            DataTypeQueryPath::VersionedUri => Some(PropertyTypeQueryPath::VersionedUri),
            DataTypeQueryPath::Version => Some(PropertyTypeQueryPath::Version),
            DataTypeQueryPath::Title => Some(PropertyTypeQueryPath::Title),
            DataTypeQueryPath::Description => Some(PropertyTypeQueryPath::Description),
            DataTypeQueryPath::Type => None,
        }
    }

    fn to_field(&self) -> (field: Option<DataTypeQueryPath>)
        ensures
            field == self.field(),
    {
        match self {
            PropertyTypeQueryPath::OwnedById => Some(DataTypeQueryPath::OwnedById),
            PropertyTypeQueryPath::BaseUri => Some(DataTypeQueryPath::BaseUri),
            PropertyTypeQueryPath::VersionedUri => Some(DataTypeQueryPath::VersionedUri),
            PropertyTypeQueryPath::Version => Some(DataTypeQueryPath::Version),
            PropertyTypeQueryPath::Title => Some(DataTypeQueryPath::Title),
            PropertyTypeQueryPath::Description => Some(DataTypeQueryPath::Description),
            PropertyTypeQueryPath::DataTypes(_) => None,
        }
    }
}

impl RecordPath for PropertyTypeQueryPath {
    open spec fn is_version(self) -> bool {
        self == PropertyTypeQueryPath::Version
    }

    open spec fn expected(self) -> ParameterType {
        match self {
            PropertyTypeQueryPath::DataTypes(path) => path.expected(),
            _ => self.field()->Some_0.expected(),
        }
    }

    open spec fn segments(self) -> Seq<Seq<char>> {
        match self {
            PropertyTypeQueryPath::DataTypes(path) => seq!["dataTypes"@] + path.segments(),
            _ => seq![self.field()->Some_0.token()],
        }
    }

    open spec fn parse(segments: Seq<Seq<char>>) -> Option<Self> {
        if segments.len() >= 1 && segments[0] == "dataTypes"@ {
            match DataTypeQueryPath::parse(segments.skip(1)) {
                Some(path) => Some(PropertyTypeQueryPath::DataTypes(path)),
                None => None,
            }
        } else if segments.len() == 1 {
            match DataTypeQueryPath::parse_token(segments[0]) {
                Some(field) => Self::of_field(field),
                None => None,
            }
        } else {
            None
        }
    }

    fn expected_type(&self) -> (expected: ParameterType) {
        match self {
            PropertyTypeQueryPath::DataTypes(path) => path.expected_type(),
            _ => match self.to_field() {
                Some(field) => field.expected_type(),
                None => ParameterType::Any,
            },
        }
    }

    fn names_version(&self) -> (version: bool) {
        match self {
            PropertyTypeQueryPath::Version => true,
            _ => false,
        }
    }

    fn to_segments(&self) -> (segments: Vec<String>) {
        match self {
            PropertyTypeQueryPath::DataTypes(path) => prefixed("dataTypes", path.to_segments()),
            _ => match self.to_field() {
                Some(field) => single(field.to_token()),
                None => Vec::new(),
            },
        }
    }

    fn parse_from(segments: &Vec<String>, start: usize) -> (path: Option<Self>) {
        if start < segments.len() {
            proof {
                lemma_skip_head(segments@, start as int);
            }
            if text_is(segments[start].as_str(), "dataTypes") {
                match DataTypeQueryPath::parse_from(segments, start + 1) {
                    Some(path) => Some(PropertyTypeQueryPath::DataTypes(path)),
                    None => None,
                }
            } else if segments.len() - start == 1 {
                match DataTypeQueryPath::from_token(segments[start].as_str()) {
                    Some(field) => Self::from_field(field),
                    None => None,
                }
            } else {
                None
            }
        } else {
            None
        }
    }

    proof fn lemma_parse_segments(self) {
        lemma_field_tokens();
        reveal_strlit("dataTypes");
        assert("dataTypes"@.len() == 9);
        assert("dataTypes"@[0] == 'd');
        match self {
            PropertyTypeQueryPath::DataTypes(path) => {
                path.lemma_parse_segments();
                assert(self.segments().skip(1) =~= path.segments());
            },
            _ => {
                self.field()->Some_0.lemma_parse_token();
            },
        }
    }
}

impl OntologyPath for PropertyTypeQueryPath {
    open spec fn description_path() -> Self {
        PropertyTypeQueryPath::Description
    }

    open spec fn common(self) -> Option<DataTypeQueryPath> {
        self.field()
    }

    fn to_common(&self) -> (field: Option<DataTypeQueryPath>) {
        self.to_field()
    }

    fn description() -> (path: Self) {
        PropertyTypeQueryPath::Description
    }

    proof fn lemma_ontology_paths() {
    }

    open spec fn base_uri_path() -> Self {
        PropertyTypeQueryPath::BaseUri
    }

    open spec fn versioned_uri_path() -> Self {
        PropertyTypeQueryPath::VersionedUri
    }

    open spec fn version_path() -> Self {
        PropertyTypeQueryPath::Version
    }

    fn base_uri() -> (path: Self) {
        PropertyTypeQueryPath::BaseUri
    }

    fn versioned_uri() -> (path: Self) {
        PropertyTypeQueryPath::VersionedUri
    }

    fn version() -> (path: Self) {
        PropertyTypeQueryPath::Version
    }
}


/// The fields of an entity type.
#[derive(Clone, Copy, Debug, PartialEq, Eq, Structural)]
pub enum EntityTypeQueryPath {
    OwnedById,
    BaseUri,
    VersionedUri,
    Version,
    Title,
    Description,
    /// A field of a property type that the entity type refers to.
    Properties(PropertyTypeQueryPath),
}

impl EntityTypeQueryPath {
    /// The field of the entity type itself that answers to a field of the
    /// same name of a data type.
    pub open spec fn of_field(field: DataTypeQueryPath) -> Option<Self> {
        match field {
            DataTypeQueryPath::OwnedById => Some(EntityTypeQueryPath::OwnedById),
            DataTypeQueryPath::BaseUri => Some(EntityTypeQueryPath::BaseUri),
            DataTypeQueryPath::VersionedUri => Some(EntityTypeQueryPath::VersionedUri),
            DataTypeQueryPath::Version => Some(EntityTypeQueryPath::Version),
            DataTypeQueryPath::Title => Some(EntityTypeQueryPath::Title),
            DataTypeQueryPath::Description => Some(EntityTypeQueryPath::Description),
            DataTypeQueryPath::Type => None,
        }
    }

    /// The data type field of the same name, for a field of the entity type
    /// itself.
    pub open spec fn field(self) -> Option<DataTypeQueryPath> {
        match self {
            EntityTypeQueryPath::OwnedById => Some(DataTypeQueryPath::OwnedById),
            EntityTypeQueryPath::BaseUri => Some(DataTypeQueryPath::BaseUri),
            EntityTypeQueryPath::VersionedUri => Some(DataTypeQueryPath::VersionedUri),
            EntityTypeQueryPath::Version => Some(DataTypeQueryPath::Version),
            EntityTypeQueryPath::Title => Some(DataTypeQueryPath::Title),
            EntityTypeQueryPath::Description => Some(DataTypeQueryPath::Description),
            EntityTypeQueryPath::Properties(_) => None,
        }
    }

    fn from_field(field: DataTypeQueryPath) -> (path: Option<Self>)
        ensures
            path == Self::of_field(field),
    {
        match field {
            DataTypeQueryPath::OwnedById => Some(EntityTypeQueryPath::OwnedById),
            DataTypeQueryPath::BaseUri => Some(EntityTypeQueryPath::BaseUri),
            DataTypeQueryPath::VersionedUri => Some(EntityTypeQueryPath::VersionedUri),
            DataTypeQueryPath::Version => Some(EntityTypeQueryPath::Version),
            DataTypeQueryPath::Title => Some(EntityTypeQueryPath::Title),
            DataTypeQueryPath::Description => Some(EntityTypeQueryPath::Description),
            DataTypeQueryPath::Type => None,
        }
    }

    fn to_field(&self) -> (field: Option<DataTypeQueryPath>)
        ensures
            field == self.field(),
    {
        match self {
            EntityTypeQueryPath::OwnedById => Some(DataTypeQueryPath::OwnedById),
            EntityTypeQueryPath::BaseUri => Some(DataTypeQueryPath::BaseUri),
            EntityTypeQueryPath::VersionedUri => Some(DataTypeQueryPath::VersionedUri),
            EntityTypeQueryPath::Version => Some(DataTypeQueryPath::Version),
            EntityTypeQueryPath::Title => Some(DataTypeQueryPath::Title),
            EntityTypeQueryPath::Description => Some(DataTypeQueryPath::Description),
            EntityTypeQueryPath::Properties(_) => None,
        }
    }
}

impl RecordPath for EntityTypeQueryPath {
    open spec fn is_version(self) -> bool {
        self == EntityTypeQueryPath::Version
    }

    open spec fn expected(self) -> ParameterType {
        match self {
            EntityTypeQueryPath::Properties(path) => path.expected(),
            _ => self.field()->Some_0.expected(),
        }
    }

    open spec fn segments(self) -> Seq<Seq<char>> {
        match self {
            EntityTypeQueryPath::Properties(path) => seq!["properties"@] + path.segments(),
            _ => seq![self.field()->Some_0.token()],
        }
    }

    open spec fn parse(segments: Seq<Seq<char>>) -> Option<Self> {
        if segments.len() >= 1 && segments[0] == "properties"@ {
            match PropertyTypeQueryPath::parse(segments.skip(1)) {
                Some(path) => Some(EntityTypeQueryPath::Properties(path)),
                None => None,
            }
        } else if segments.len() == 1 {
            match DataTypeQueryPath::parse_token(segments[0]) {
                Some(field) => Self::of_field(field),
                None => None,
            }
        } else {
            None
        }
    }

    fn expected_type(&self) -> (expected: ParameterType) {
        match self {
            EntityTypeQueryPath::Properties(path) => path.expected_type(),
            _ => match self.to_field() {
                Some(field) => field.expected_type(),
                None => ParameterType::Any,
            },
        }
    }

    fn names_version(&self) -> (version: bool) {
        match self {
            EntityTypeQueryPath::Version => true,
            _ => false,
        }
    }

    fn to_segments(&self) -> (segments: Vec<String>) {
        match self {
            EntityTypeQueryPath::Properties(path) => prefixed("properties", path.to_segments()),
            _ => match self.to_field() {
                Some(field) => single(field.to_token()),
                None => Vec::new(),
            },
        }
    }

    fn parse_from(segments: &Vec<String>, start: usize) -> (path: Option<Self>) {
        if start < segments.len() {
            proof {
                lemma_skip_head(segments@, start as int);
            }
            if text_is(segments[start].as_str(), "properties") {
                match PropertyTypeQueryPath::parse_from(segments, start + 1) {
                    Some(path) => Some(EntityTypeQueryPath::Properties(path)),
                    None => None,
                }
            } else if segments.len() - start == 1 {
                match DataTypeQueryPath::from_token(segments[start].as_str()) {
                    Some(field) => Self::from_field(field),
                    None => None,
                }
            } else {
                None
            }
        } else {
            None
        }
    }

    proof fn lemma_parse_segments(self) {
        lemma_field_tokens();
        reveal_strlit("properties");
        assert("properties"@.len() == 10);
        match self {
            EntityTypeQueryPath::Properties(path) => {
                path.lemma_parse_segments();
                assert(self.segments().skip(1) =~= path.segments());
            },
            _ => {
                self.field()->Some_0.lemma_parse_token();
            },
        }
    }
}

impl OntologyPath for EntityTypeQueryPath {
    open spec fn description_path() -> Self {
        EntityTypeQueryPath::Description
    }

    open spec fn common(self) -> Option<DataTypeQueryPath> {
        self.field()
    }

    fn to_common(&self) -> (field: Option<DataTypeQueryPath>) {
        self.to_field()
    }

    fn description() -> (path: Self) {
        EntityTypeQueryPath::Description
    }

    proof fn lemma_ontology_paths() {
    }

    open spec fn base_uri_path() -> Self {
        EntityTypeQueryPath::BaseUri
    }

    open spec fn versioned_uri_path() -> Self {
        EntityTypeQueryPath::VersionedUri
    }

    open spec fn version_path() -> Self {
        EntityTypeQueryPath::Version
    }

    fn base_uri() -> (path: Self) {
        EntityTypeQueryPath::BaseUri
    }

    fn versioned_uri() -> (path: Self) {
        EntityTypeQueryPath::VersionedUri
    }

    fn version() -> (path: Self) {
        EntityTypeQueryPath::Version
    }
}

/// The fields of an entity.
#[derive(Clone, Copy, Debug, PartialEq, Eq, Structural)]
pub enum EntityQueryPath {
    Id,
    OwnedById,
    CreatedById,
    UpdatedById,
    Version,
    Archived,
    /// A field of the entity's type.
    Type(EntityTypeQueryPath),
}

impl EntityQueryPath {
    /// The field of the entity itself that a single segment names.
    pub open spec fn parse_token(token: Seq<char>) -> Option<Self> {
        if token == "id"@ {
            Some(EntityQueryPath::Id)
        } else if token == "ownedById"@ {
            Some(EntityQueryPath::OwnedById)
        } else if token == "createdById"@ {
            Some(EntityQueryPath::CreatedById)
        } else if token == "updatedById"@ {
            Some(EntityQueryPath::UpdatedById)
        } else if token == "version"@ {
            Some(EntityQueryPath::Version)
        } else if token == "archived"@ {
            Some(EntityQueryPath::Archived)
        } else {
            None
        }
    }

    fn from_token(token: &str) -> (path: Option<Self>)
        ensures
            path == Self::parse_token(token@),
    {
        if text_is(token, "id") {
            Some(EntityQueryPath::Id)
        } else if text_is(token, "ownedById") {
            Some(EntityQueryPath::OwnedById)
        } else if text_is(token, "createdById") {
            Some(EntityQueryPath::CreatedById)
        } else if text_is(token, "updatedById") {
            Some(EntityQueryPath::UpdatedById)
        } else if text_is(token, "version") {
            Some(EntityQueryPath::Version)
        } else if text_is(token, "archived") {
            Some(EntityQueryPath::Archived)
        } else {
            None
        }
    }
}

impl RecordPath for EntityQueryPath {
    open spec fn is_version(self) -> bool {
        self == EntityQueryPath::Version
    }

    open spec fn expected(self) -> ParameterType {
        match self {
            EntityQueryPath::Id => ParameterType::Uuid,
            EntityQueryPath::OwnedById => ParameterType::Uuid,
            EntityQueryPath::CreatedById => ParameterType::Uuid,
            EntityQueryPath::UpdatedById => ParameterType::Uuid,
            EntityQueryPath::Version => ParameterType::Timestamp,
            EntityQueryPath::Archived => ParameterType::Boolean,
            EntityQueryPath::Type(path) => path.expected(),
        }
    }

    open spec fn segments(self) -> Seq<Seq<char>> {
        match self {
            EntityQueryPath::Id => seq!["id"@],
            EntityQueryPath::OwnedById => seq!["ownedById"@],
            EntityQueryPath::CreatedById => seq!["createdById"@],
            EntityQueryPath::UpdatedById => seq!["updatedById"@],
            EntityQueryPath::Version => seq!["version"@],
            EntityQueryPath::Archived => seq!["archived"@],
            EntityQueryPath::Type(path) => seq!["type"@] + path.segments(),
        }
    }

    open spec fn parse(segments: Seq<Seq<char>>) -> Option<Self> {
        if segments.len() >= 1 && segments[0] == "type"@ {
            match EntityTypeQueryPath::parse(segments.skip(1)) {
                Some(path) => Some(EntityQueryPath::Type(path)),
                None => None,
            }
        } else if segments.len() == 1 {
            Self::parse_token(segments[0])
        } else {
            None
        }
    }

    fn expected_type(&self) -> (expected: ParameterType) {
        match self {
            EntityQueryPath::Id => ParameterType::Uuid,
            EntityQueryPath::OwnedById => ParameterType::Uuid,
            EntityQueryPath::CreatedById => ParameterType::Uuid,
            EntityQueryPath::UpdatedById => ParameterType::Uuid,
            EntityQueryPath::Version => ParameterType::Timestamp,
            EntityQueryPath::Archived => ParameterType::Boolean,
            EntityQueryPath::Type(path) => path.expected_type(),
        }
    }

    fn names_version(&self) -> (version: bool) {
        match self {
            EntityQueryPath::Version => true,
            _ => false,
        }
    }

    fn to_segments(&self) -> (segments: Vec<String>) {
        match self {
            EntityQueryPath::Id => single("id"),
            EntityQueryPath::OwnedById => single("ownedById"),
            EntityQueryPath::CreatedById => single("createdById"),
            EntityQueryPath::UpdatedById => single("updatedById"),
            EntityQueryPath::Version => single("version"),
            EntityQueryPath::Archived => single("archived"),
            EntityQueryPath::Type(path) => prefixed("type", path.to_segments()),
        }
    }

    fn parse_from(segments: &Vec<String>, start: usize) -> (path: Option<Self>) {
        if start < segments.len() {
            proof {
                lemma_skip_head(segments@, start as int);
            }
            if text_is(segments[start].as_str(), "type") {
                match EntityTypeQueryPath::parse_from(segments, start + 1) {
                    Some(path) => Some(EntityQueryPath::Type(path)),
                    None => None,
                }
            } else if segments.len() - start == 1 {
                Self::from_token(segments[start].as_str())
            } else {
                None
            }
        } else {
            None
        }
    }

    proof fn lemma_parse_segments(self) {
        reveal_strlit("id");
        reveal_strlit("ownedById");
        reveal_strlit("createdById");
        reveal_strlit("updatedById");
        reveal_strlit("version");
        reveal_strlit("archived");
        reveal_strlit("type");
        assert("id"@.len() == 2);
        assert("ownedById"@.len() == 9);
        assert("createdById"@.len() == 11);
        assert("updatedById"@.len() == 11);
        assert("version"@.len() == 7);
        assert("archived"@.len() == 8);
        assert("type"@.len() == 4);
        assert("createdById"@[0] != "updatedById"@[0]);
        match self {
            EntityQueryPath::Type(path) => {
                path.lemma_parse_segments();
                assert(self.segments().skip(1) =~= path.segments());
            },
            _ => {},
        }
    }
}

/// The fields of a link between two entities.
#[derive(Clone, Copy, Debug, PartialEq, Eq, Structural)]
pub enum LinkQueryPath {
    OwnedById,
    /// The position of the link among the links of its source.
    Index,
    /// A field of the link's type.
    Type(EntityTypeQueryPath),
    /// The entity the link starts at, or a field of it.
    Source(Option<EntityQueryPath>),
    /// The entity the link ends at, or a field of it.
    Target(Option<EntityQueryPath>),
}

impl LinkQueryPath {
    /// The entity that the segments spell as an end of a link: the entity
    /// itself where there are none, else a field of it.
    pub open spec fn parse_end(segments: Seq<Seq<char>>) -> Option<Option<EntityQueryPath>> {
        if segments.len() == 0 {
            Some(None)
        } else {
            match EntityQueryPath::parse(segments) {
                Some(path) => Some(Some(path)),
                None => None,
            }
        }
    }

    /// The segments that spell an end of a link.
    pub open spec fn end_segments(end: Option<EntityQueryPath>) -> Seq<Seq<char>> {
        match end {
            Some(path) => path.segments(),
            None => Seq::empty(),
        }
    }

    fn end_from(segments: &Vec<String>, start: usize) -> (end: Option<Option<EntityQueryPath>>)
        requires
            start <= segments.len(),
        ensures
            end == Self::parse_end(texts(segments@).skip(start as int)),
    {
        if start == segments.len() {
            Some(None)
        } else {
            match EntityQueryPath::parse_from(segments, start) {
                Some(path) => Some(Some(path)),
                None => None,
            }
        }
    }

    fn end_to_segments(end: &Option<EntityQueryPath>) -> (segments: Vec<String>)
        ensures
            texts(segments@) == Self::end_segments(*end),
    {
        match end {
            Some(path) => path.to_segments(),
            None => {
                let segments: Vec<String> = Vec::new();
                assert(texts(segments@) =~= Seq::<Seq<char>>::empty());
                segments
            },
        }
    }
}

impl RecordPath for LinkQueryPath {
    open spec fn is_version(self) -> bool {
        false
    }

    open spec fn expected(self) -> ParameterType {
        match self {
            LinkQueryPath::OwnedById => ParameterType::Uuid,
            LinkQueryPath::Index => ParameterType::UnsignedInteger,
            LinkQueryPath::Type(path) => path.expected(),
            LinkQueryPath::Source(None) => ParameterType::Uuid,
            LinkQueryPath::Source(Some(path)) => path.expected(),
            LinkQueryPath::Target(None) => ParameterType::Uuid,
            LinkQueryPath::Target(Some(path)) => path.expected(),
        }
    }

    open spec fn segments(self) -> Seq<Seq<char>> {
        match self {
            LinkQueryPath::OwnedById => seq!["ownedById"@],
            LinkQueryPath::Index => seq!["index"@],
            LinkQueryPath::Type(path) => seq!["type"@] + path.segments(),
            LinkQueryPath::Source(end) => seq!["source"@] + Self::end_segments(end),
            LinkQueryPath::Target(end) => seq!["target"@] + Self::end_segments(end),
        }
    }

    open spec fn parse(segments: Seq<Seq<char>>) -> Option<Self> {
        if segments.len() == 0 {
            None
        } else if segments[0] == "type"@ {
            match EntityTypeQueryPath::parse(segments.skip(1)) {
                Some(path) => Some(LinkQueryPath::Type(path)),
                None => None,
            }
        } else if segments[0] == "source"@ {
            match Self::parse_end(segments.skip(1)) {
                Some(end) => Some(LinkQueryPath::Source(end)),
                None => None,
            }
        } else if segments[0] == "target"@ {
            match Self::parse_end(segments.skip(1)) {
                Some(end) => Some(LinkQueryPath::Target(end)),
                None => None,
            }
        } else if segments.len() == 1 && segments[0] == "ownedById"@ {
            Some(LinkQueryPath::OwnedById)
        } else if segments.len() == 1 && segments[0] == "index"@ {
            Some(LinkQueryPath::Index)
        } else {
            None
        }
    }

    fn expected_type(&self) -> (expected: ParameterType) {
        match self {
            LinkQueryPath::OwnedById => ParameterType::Uuid,
            LinkQueryPath::Index => ParameterType::UnsignedInteger,
            LinkQueryPath::Type(path) => path.expected_type(),
            LinkQueryPath::Source(None) => ParameterType::Uuid,
            LinkQueryPath::Source(Some(path)) => path.expected_type(),
            LinkQueryPath::Target(None) => ParameterType::Uuid,
            LinkQueryPath::Target(Some(path)) => path.expected_type(),
        }
    }

    fn names_version(&self) -> (version: bool) {
        false
    }

    fn to_segments(&self) -> (segments: Vec<String>) {
        match self {
            LinkQueryPath::OwnedById => single("ownedById"),
            LinkQueryPath::Index => single("index"),
            LinkQueryPath::Type(path) => prefixed("type", path.to_segments()),
            LinkQueryPath::Source(end) => prefixed("source", Self::end_to_segments(end)),
            LinkQueryPath::Target(end) => prefixed("target", Self::end_to_segments(end)),
        }
    }

    fn parse_from(segments: &Vec<String>, start: usize) -> (path: Option<Self>) {
        if start < segments.len() {
            proof {
                lemma_skip_head(segments@, start as int);
            }
            let head = segments[start].as_str();
            if text_is(head, "type") {
                match EntityTypeQueryPath::parse_from(segments, start + 1) {
                    Some(path) => Some(LinkQueryPath::Type(path)),
                    None => None,
                }
            } else if text_is(head, "source") {
                match Self::end_from(segments, start + 1) {
                    Some(end) => Some(LinkQueryPath::Source(end)),
                    None => None,
                }
            } else if text_is(head, "target") {
                match Self::end_from(segments, start + 1) {
                    Some(end) => Some(LinkQueryPath::Target(end)),
                    None => None,
                }
            } else if segments.len() - start == 1 && text_is(head, "ownedById") {
                Some(LinkQueryPath::OwnedById)
            } else if segments.len() - start == 1 && text_is(head, "index") {
                Some(LinkQueryPath::Index)
            } else {
                None
            }
        } else {
            None
        }
    }

    proof fn lemma_parse_segments(self) {
        reveal_strlit("ownedById");
        reveal_strlit("index");
        reveal_strlit("type");
        reveal_strlit("source");
        reveal_strlit("target");
        assert("ownedById"@.len() == 9);
        assert("index"@.len() == 5);
        assert("type"@.len() == 4);
        assert("source"@.len() == 6);
        assert("target"@.len() == 6);
        assert("source"@[0] != "target"@[0]);
        match self {
            LinkQueryPath::Type(path) => {
                path.lemma_parse_segments();
                assert(self.segments().skip(1) =~= path.segments());
            },
            LinkQueryPath::Source(end) => {
                assert(self.segments().skip(1) =~= Self::end_segments(end));
                if let Some(path) = end {
                    path.lemma_parse_segments();
                }
            },
            LinkQueryPath::Target(end) => {
                assert(self.segments().skip(1) =~= Self::end_segments(end));
                if let Some(path) = end {
                    path.lemma_parse_segments();
                }
            },
            _ => {},
        }
    }
}

/// The record kind of data types.
#[derive(Clone, Copy, Debug, PartialEq, Eq, Structural)]
pub struct DataType;

/// The record kind of property types.
#[derive(Clone, Copy, Debug, PartialEq, Eq, Structural)]
pub struct PropertyType;

/// The record kind of entity types.
#[derive(Clone, Copy, Debug, PartialEq, Eq, Structural)]
pub struct EntityType;

/// The record kind of entities.
#[derive(Clone, Copy, Debug, PartialEq, Eq, Structural)]
pub struct Entity;

/// The record kind of links between entities.
#[derive(Clone, Copy, Debug, PartialEq, Eq, Structural)]
pub struct Link;

impl QueryRecord for DataType {
    type Path = DataTypeQueryPath;
}

impl QueryRecord for PropertyType {
    type Path = PropertyTypeQueryPath;
}

impl QueryRecord for EntityType {
    type Path = EntityTypeQueryPath;
}

impl QueryRecord for Entity {
    type Path = EntityQueryPath;
}

impl QueryRecord for Link {
    type Path = LinkQueryPath;
}

} // verus!
