//! The fields that the engine and its packages declare on the state of an
//! agent and on the context, and the builder that collects them.

use vstd::prelude::*;

verus! {

/// A field type that the engine itself defines.
#[derive(Clone, Copy, Debug, PartialEq, Eq, Structural)]
pub enum PresetFieldType {
    /// The position of an agent in a batch.
    Index,
    /// The identifier of an agent.
    Id,
}

/// The shape of the values of a field.
#[derive(Debug, PartialEq, Eq)]
pub enum FieldTypeVariant {
    Number,
    Boolean,
    String,
    Serialized,
    FixedLengthArray { kind: Box<FieldType>, len: usize },
    VariableLengthArray(Box<FieldType>),
    Preset(PresetFieldType),
}

/// The type of a field: the shape of its values and whether a value may be
/// missing.
#[derive(Debug, PartialEq, Eq)]
pub struct FieldType {
    pub variant: FieldTypeVariant,
    pub nullable: bool,
}

impl FieldType {
    pub fn new(variant: FieldTypeVariant, nullable: bool) -> (field_type: FieldType)
        ensures
            field_type == (FieldType { variant, nullable }),
    {
        FieldType { variant, nullable }
    }

    /// Whether two field types are the same.
    pub fn same(&self, other: &FieldType) -> (same: bool)
        ensures
            same == (*self == *other),
        decreases *self,
    {
        self.nullable == other.nullable && match (&self.variant, &other.variant) {
            (FieldTypeVariant::Number, FieldTypeVariant::Number) => true,
            (FieldTypeVariant::Boolean, FieldTypeVariant::Boolean) => true,
            (FieldTypeVariant::String, FieldTypeVariant::String) => true,
            (FieldTypeVariant::Serialized, FieldTypeVariant::Serialized) => true,
            (
                FieldTypeVariant::FixedLengthArray { kind, len },
                FieldTypeVariant::FixedLengthArray { kind: other_kind, len: other_len },
            ) => *len == *other_len && kind.same(other_kind),
            (
                FieldTypeVariant::VariableLengthArray(kind),
                FieldTypeVariant::VariableLengthArray(other_kind),
            ) => kind.same(other_kind),
            (FieldTypeVariant::Preset(preset), FieldTypeVariant::Preset(other_preset)) => *preset
                == *other_preset,
            _ => false,
        }
    }

    /// An independent copy of the field type.
    pub fn duplicate(&self) -> (copy: FieldType)
        ensures
            copy == *self,
        decreases *self,
    {
        let variant = match &self.variant {
            FieldTypeVariant::Number => FieldTypeVariant::Number,
            FieldTypeVariant::Boolean => FieldTypeVariant::Boolean,
            FieldTypeVariant::String => FieldTypeVariant::String,
            FieldTypeVariant::Serialized => FieldTypeVariant::Serialized,
            FieldTypeVariant::FixedLengthArray { kind, len } => FieldTypeVariant::FixedLengthArray {
                kind: Box::new(kind.duplicate()),
                len: *len,
            },
            FieldTypeVariant::VariableLengthArray(kind) => FieldTypeVariant::VariableLengthArray(
                Box::new(kind.duplicate()),
            ),
            FieldTypeVariant::Preset(preset) => FieldTypeVariant::Preset(*preset),
        };
        FieldType { variant, nullable: self.nullable }
    }
}

/// The number under which a package is registered.
#[derive(Clone, Copy, Debug, PartialEq, Eq, Structural)]
pub struct PackageId(pub u64);

/// Who may see a field.
#[derive(Clone, Copy, Debug, PartialEq, Eq, Structural)]
pub enum FieldScope {
    /// Agents and every package.
    Agent,
    /// The package that declared it.
    Private,
    /// The engine and the package that declared it, never the agents.
    Hidden,
}

/// Who declared a field.
#[derive(Clone, Copy, Debug, PartialEq, Eq, Structural)]
pub enum FieldSource {
    Engine,
    Package(PackageId),
}

/// A field as a package or the engine declares it.
#[derive(Debug, PartialEq, Eq)]
pub struct FieldSpec {
    pub name: String,
    pub field_type: FieldType,
    pub scope: FieldScope,
}

/// A declared field, as a mathematical value.
pub struct FieldSpecModel {
    pub name: Seq<char>,
    pub field_type: FieldType,
    pub scope: FieldScope,
}

impl View for FieldSpec {
    type V = FieldSpecModel;

    open spec fn view(&self) -> FieldSpecModel {
        FieldSpecModel { name: self.name@, field_type: self.field_type, scope: self.scope }
    }
}

/// The models of a list of declared fields.
pub open spec fn declarations(fields: Seq<FieldSpec>) -> Seq<FieldSpecModel> {
    Seq::new(fields.len(), |i: int| fields[i]@)
}

/// A field together with its source.
#[derive(Debug, PartialEq, Eq)]
pub struct RootFieldSpec {
    pub inner: FieldSpec,
    pub source: FieldSource,
}

/// A field together with its source, as a mathematical value.
pub struct RootFieldSpecModel {
    pub inner: FieldSpecModel,
    pub source: FieldSource,
}

impl View for RootFieldSpec {
    type V = RootFieldSpecModel;

    open spec fn view(&self) -> RootFieldSpecModel {
        RootFieldSpecModel { inner: self.inner@, source: self.source }
    }
}

/// The models of a list of fields.
pub open spec fn root_specs(fields: Seq<RootFieldSpec>) -> Seq<RootFieldSpecModel> {
    Seq::new(fields.len(), |i: int| fields[i]@)
}

/// What tells two fields apart: the name for a field that agents see, and
/// the name together with the scope and the source for every other.
pub struct FieldKey {
    pub name: Seq<char>,
    pub scope: FieldScope,
    pub source: Option<FieldSource>,
}

impl RootFieldSpecModel {
    pub open spec fn key(self) -> FieldKey {
        match self.inner.scope {
            FieldScope::Agent => FieldKey {
                name: self.inner.name,
                scope: FieldScope::Agent,
                source: None,
            },
            scope => FieldKey { name: self.inner.name, scope, source: Some(self.source) },
        }
    }
}

/// Why a field or a package could not be taken up.
#[derive(Debug, PartialEq, Eq)]
pub enum Error {
    /// A field was declared before a source was named.
    MissingFieldSource,
    /// A field was declared again under the same key with another type.
    FieldKeyClash { name: String, scope: FieldScope },
    /// No creator is registered for a package that the configuration names.
    MissingCreator { package_type: PackageType, name: String },
}

/// An [`Error`], as a mathematical value.
pub enum ErrorModel {
    MissingFieldSource,
    FieldKeyClash { name: Seq<char>, scope: FieldScope },
    MissingCreator { package_type: PackageType, name: Seq<char> },
}

impl View for Error {
    type V = ErrorModel;

    open spec fn view(&self) -> ErrorModel {
        match self {
            Error::MissingFieldSource => ErrorModel::MissingFieldSource,
            Error::FieldKeyClash { name, scope } => ErrorModel::FieldKeyClash {
                name: name@,
                scope: *scope,
            },
            Error::MissingCreator { package_type, name } => ErrorModel::MissingCreator {
                package_type: *package_type,
                name: name@,
            },
        }
    }
}

/// The phase of a simulation step that a package serves.
#[derive(Clone, Copy, Debug, PartialEq, Eq, Structural)]
pub enum PackageType {
    Init,
    Context,
    State,
    Output,
}

impl PackageType {
    /// The name of the type in messages.
    pub open spec fn name_spec(self) -> Seq<char> {
        match self {
            PackageType::Init => "init"@,
            PackageType::Context => "context"@,
            PackageType::State => "state"@,
            PackageType::Output => "output"@,
        }
    }

    /// The name of the type in messages.
    pub fn name(&self) -> (name: &'static str)
        ensures
            name@ == self.name_spec(),
    {
        match self {
            PackageType::Init => "init",
            PackageType::Context => "context",
            PackageType::State => "state",
            PackageType::Output => "output",
        }
    }
}

impl ErrorModel {
    /// What the error says.
    pub open spec fn message(self) -> Seq<char> {
        match self {
            ErrorModel::MissingFieldSource => "Field declared without a source"@,
            ErrorModel::FieldKeyClash { name, scope } => "Field declared twice with different types: "@
                + name,
            ErrorModel::MissingCreator { package_type, name } => "Could not find "@
                + package_type.name_spec() + " creator package: "@ + name,
        }
    }
}

impl Error {
    /// What the error says.
    pub fn message(&self) -> (message: String)
        ensures
            message@ == self@.message(),
    {
        match self {
            Error::MissingFieldSource => String::from_str("Field declared without a source"),
            Error::FieldKeyClash { name, scope } => {
                let mut message = String::from_str("Field declared twice with different types: ");
                message.append(name.as_str());
                message
            },
            Error::MissingCreator { package_type, name } => {
                let mut message = String::from_str("Could not find ");
                message.append(package_type.name());
                message.append(" creator package: ");
                message.append(name.as_str());
                message
            },
        }
    }
}

/// The type under which a key was first declared among `fields`, if it was.
pub open spec fn declared_type(fields: Seq<RootFieldSpecModel>, key: FieldKey) -> Option<
    FieldType,
>
    decreases fields.len(),
{
    if fields.len() == 0 {
        None
    } else {
        match declared_type(fields.drop_last(), key) {
            Some(field_type) => Some(field_type),
            None => if fields.last().key() == key {
                Some(fields.last().inner.field_type)
            } else {
                None
            },
        }
    }
}

/// The fields collected so far and the source of the fields to come.
pub struct BuilderModel {
    pub fields: Seq<RootFieldSpecModel>,
    pub source: Option<FieldSource>,
}

/// The state that declaring fields leaves behind, and the error that ended
/// it, if one did.
pub struct Declared {
    pub state: BuilderModel,
    pub error: Option<ErrorModel>,
}

impl BuilderModel {
    pub open spec fn empty() -> BuilderModel {
        BuilderModel { fields: Seq::empty(), source: None }
    }

    pub open spec fn with_source(self, source: FieldSource) -> BuilderModel {
        BuilderModel { fields: self.fields, source: Some(source) }
    }

    /// Declaring one field. A field whose key is new is added; one whose key
    /// was declared with the same type changes nothing; one whose key was
    /// declared with another type is a clash. Without a source nothing can
    /// be declared.
    pub open spec fn declare(self, field: FieldSpecModel) -> Declared {
        match self.source {
            None => Declared { state: self, error: Some(ErrorModel::MissingFieldSource) },
            Some(source) => {
                let root = RootFieldSpecModel { inner: field, source };
                match declared_type(self.fields, root.key()) {
                    None => Declared {
                        state: BuilderModel { fields: self.fields.push(root), source: self.source },
                        error: None,
                    },
                    Some(field_type) => if field_type == field.field_type {
                        Declared { state: self, error: None }
                    } else {
                        Declared {
                            state: self,
                            error: Some(
                                ErrorModel::FieldKeyClash { name: field.name, scope: field.scope },
                            ),
                        }
                    },
                }
            },
        }
    }

    /// Declaring a list of fields in order, up to the first that fails.
    pub open spec fn declare_all(self, fields: Seq<FieldSpecModel>) -> Declared
        decreases fields.len(),
    {
        if fields.len() == 0 {
            Declared { state: self, error: None }
        } else {
            let before = self.declare_all(fields.drop_last());
            if before.error is Some {
                before
            } else {
                before.state.declare(fields.last())
            }
        }
    }
}

/// Once declaring the first fields of a list has failed, declaring the whole
/// list fails in the same way.
pub proof fn lemma_declare_all_stops(
    builder: BuilderModel,
    fields: Seq<FieldSpecModel>,
    prefix: int,
)
    requires
        0 <= prefix <= fields.len(),
        builder.declare_all(fields.take(prefix)).error is Some,
    ensures
        builder.declare_all(fields) == builder.declare_all(fields.take(prefix)),
    decreases fields.len(),
{
    if prefix == fields.len() {
        assert(fields.take(prefix) =~= fields);
    } else {
        assert(fields.drop_last().take(prefix) =~= fields.take(prefix));
        lemma_declare_all_stops(builder, fields.drop_last(), prefix);
    }
}

/// A key that is first declared at some place among the fields has the type
/// it was given there.
pub proof fn lemma_declared_at(fields: Seq<RootFieldSpecModel>, key: FieldKey, at: int)
    requires
        0 <= at < fields.len(),
        declared_type(fields.take(at), key) is None,
        fields[at].key() == key,
    ensures
        declared_type(fields, key) == Some(fields[at].inner.field_type),
    decreases fields.len(),
{
    if at == fields.len() - 1 {
        assert(fields.drop_last() =~= fields.take(at));
    } else {
        assert(fields.drop_last().take(at) =~= fields.take(at));
        lemma_declared_at(fields.drop_last(), key, at);
    }
}

/// Collects the fields that the engine and the packages declare.
pub struct FieldSpecMapBuilder {
    field_specs: Vec<RootFieldSpec>,
    field_source: Option<FieldSource>,
}

impl View for FieldSpecMapBuilder {
    type V = BuilderModel;

    closed spec fn view(&self) -> BuilderModel {
        BuilderModel { fields: root_specs(self.field_specs@), source: self.field_source }
    }
}

/// The fields of a schema, each under its key.
#[derive(Debug, PartialEq, Eq)]
pub struct FieldSpecMap {
    pub field_specs: Vec<RootFieldSpec>,
}

impl View for FieldSpecMap {
    type V = Seq<RootFieldSpecModel>;

    open spec fn view(&self) -> Seq<RootFieldSpecModel> {
        root_specs(self.field_specs@)
    }
}

/// Whether two texts hold the same characters.
fn same_text(first: &String, second: &String) -> (same: bool)
    ensures
        same == (first@ == second@),
{
    *first == *second
}

impl RootFieldSpec {
    /// Whether the field has the key of a field named `name` with scope
    /// `scope` from `source`.
    fn has_key(&self, name: &String, scope: FieldScope, source: FieldSource) -> (has: bool)
        ensures
            has == (self@.key() == (RootFieldSpecModel {
                inner: FieldSpecModel { name: name@, field_type: self.inner.field_type, scope },
                source,
            }).key()),
    {
        if !same_text(&self.inner.name, name) {
            return false;
        }
        match (self.inner.scope, scope) {
            (FieldScope::Agent, FieldScope::Agent) => true,
            (FieldScope::Private, FieldScope::Private) => self.source == source,
            (FieldScope::Hidden, FieldScope::Hidden) => self.source == source,
            _ => false,
        }
    }
}

impl FieldSpecMapBuilder {
    /// A builder without fields and without a source.
    pub fn new() -> (builder: FieldSpecMapBuilder)
        ensures
            builder@ == BuilderModel::empty(),
    {
        let builder = FieldSpecMapBuilder { field_specs: Vec::new(), field_source: None };
        assert(builder@.fields =~= Seq::empty());
        builder
    }

    /// Names the source of the fields that are declared from now on.
    pub fn source(&mut self, source: FieldSource)
        ensures
            final(self)@ == old(self)@.with_source(source),
    {
        self.field_source = Some(source);
    }

    /// Declares a field of the current source.
    pub fn add_field_spec(&mut self, name: String, field_type: FieldType, scope: FieldScope) -> (outcome:
        Result<(), Error>)
        ensures
            final(self)@ == old(self)@.declare(FieldSpecModel { name: name@, field_type, scope }).state,
            match old(self)@.declare(FieldSpecModel { name: name@, field_type, scope }).error {
                None => outcome is Ok,
                Some(error) => outcome is Err && outcome->Err_0@ == error,
            },
    {
        let source = match self.field_source {
            Some(source) => source,
            None => {
                return Err(Error::MissingFieldSource);
            },
        };
        let ghost root = RootFieldSpecModel {
            inner: FieldSpecModel { name: name@, field_type, scope },
            source,
        };
        let ghost fields = root_specs(self.field_specs@);
        let mut index: usize = 0;
        while index < self.field_specs.len()
            invariant
                index <= self.field_specs.len(),
                fields == root_specs(self.field_specs@),
                self.field_source == Some(source),
                *self == *old(self),
                declared_type(fields.take(index as int), root.key()) is None,
                root == (RootFieldSpecModel {
                    inner: FieldSpecModel { name: name@, field_type, scope },
                    source,
                }),
            decreases self.field_specs.len() - index,
        {
            if self.field_specs[index].has_key(&name, scope, source) {
                proof {
                    lemma_declared_at(fields, root.key(), index as int);
                }
                if self.field_specs[index].inner.field_type.same(&field_type) {
                    return Ok(());
                } else {
                    return Err(Error::FieldKeyClash { name, scope });
                }
            }
            proof {
                assert(fields.take(index + 1).drop_last() =~= fields.take(index as int));
            }
            index += 1;
        }
        proof {
            assert(fields.take(index as int) =~= fields);
        }
        self.field_specs.push(RootFieldSpec { inner: FieldSpec { name, field_type, scope }, source });
        assert(root_specs(self.field_specs@) =~= fields.push(root));
        Ok(())
    }

    /// Declares a list of fields of the current source in order, and stops
    /// at the first that fails.
    pub fn add_field_specs(&mut self, fields: &Vec<FieldSpec>) -> (outcome: Result<(), Error>)
        ensures
            final(self)@ == old(self)@.declare_all(declarations(fields@)).state,
            match old(self)@.declare_all(declarations(fields@)).error {
                None => outcome is Ok,
                Some(error) => outcome is Err && outcome->Err_0@ == error,
            },
    {
        let ghost all = declarations(fields@);
        let mut index: usize = 0;
        while index < fields.len()
            invariant
                index <= fields.len(),
                all == declarations(fields@),
                old(self)@.declare_all(all.take(index as int)).error is None,
                self@ == old(self)@.declare_all(all.take(index as int)).state,
            decreases fields.len() - index,
        {
            let field = &fields[index];
            proof {
                assert(all.take(index + 1).drop_last() =~= all.take(index as int));
                assert(all.take(index + 1).last() == field@);
            }
            let outcome = self.add_field_spec(
                field.name.clone(),
                field.field_type.duplicate(),
                field.scope,
            );
            if let Err(error) = outcome {
                proof {
                    lemma_declare_all_stops(old(self)@, all, index + 1);
                }
                return Err(error);
            }
            index += 1;
        }
        proof {
            assert(all.take(index as int) =~= all);
        }
        Ok(())
    }

    /// The fields collected.
    pub fn build(self) -> (map: FieldSpecMap)
        ensures
            map@ == self@.fields,
    {
        FieldSpecMap { field_specs: self.field_specs }
    }
}

} // verus!
