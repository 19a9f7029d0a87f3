//! The packages of a simulation run: which creators a configuration names,
//! in which order they run, and the schemas that their fields make up.

use crate::schema::{
    declarations, BuilderModel, Declared, Error, ErrorModel, FieldScope, FieldSource, FieldSpec,
    FieldSpecMap, FieldSpecMapBuilder, FieldSpecModel, FieldType, FieldTypeVariant, PackageId,
    PackageType, PresetFieldType, RootFieldSpecModel,
};
use crate::text::texts;
use vstd::prelude::*;

verus! {

/// The name of the hidden field that tells where an agent stood in the
/// previous step.
pub const PREVIOUS_INDEX_FIELD_NAME: &'static str = "previous_index";

/// The name of the hidden field that tells where the context of an agent
/// stands.
pub const CONTEXT_INDEX_FIELD_NAME: &'static str = "__context_index";

/// A field that every agent has.
#[derive(Clone, Copy, Debug, PartialEq, Eq, Structural)]
pub enum AgentStateField {
    AgentId,
    AgentName,
    Position,
    Direction,
    Velocity,
    Shape,
    Height,
    Scale,
    Color,
    RGB,
    Hidden,
}

/// A vector of three numbers.
pub open spec fn vector_type() -> FieldType {
    FieldType {
        variant: FieldTypeVariant::FixedLengthArray {
            kind: Box::new(FieldType { variant: FieldTypeVariant::Number, nullable: false }),
            len: 3,
        },
        nullable: true,
    }
}

impl AgentStateField {
    pub open spec fn name_spec(self) -> Seq<char> {
        match self {
            AgentStateField::AgentId => "agent_id"@,
            AgentStateField::AgentName => "agent_name"@,
            AgentStateField::Position => "position"@,
            AgentStateField::Direction => "direction"@,
            AgentStateField::Velocity => "velocity"@,
            AgentStateField::Shape => "shape"@,
            AgentStateField::Height => "height"@,
            AgentStateField::Scale => "scale"@,
            AgentStateField::Color => "color"@,
            AgentStateField::RGB => "rgb"@,
            AgentStateField::Hidden => "hidden"@,
        }
    }

    pub open spec fn field_type_spec(self) -> FieldType {
        match self {
            AgentStateField::AgentId => FieldType {
                variant: FieldTypeVariant::Preset(PresetFieldType::Id),
                nullable: false,
            },
            AgentStateField::AgentName | AgentStateField::Shape | AgentStateField::Color => FieldType {
                variant: FieldTypeVariant::String,
                nullable: true,
            },
            AgentStateField::Position
            | AgentStateField::Direction
            | AgentStateField::Velocity
            | AgentStateField::Scale
            | AgentStateField::RGB => vector_type(),
            AgentStateField::Height => FieldType {
                variant: FieldTypeVariant::Number,
                nullable: true,
            },
            AgentStateField::Hidden => FieldType {
                variant: FieldTypeVariant::Boolean,
                nullable: false,
            },
        }
    }

    /// The field as the engine declares it: visible to the agents.
    pub open spec fn declaration(self) -> FieldSpecModel {
        FieldSpecModel {
            name: self.name_spec(),
            field_type: self.field_type_spec(),
            scope: FieldScope::Agent,
        }
    }

    pub fn name(&self) -> (name: &'static str)
        ensures
            name@ == self.name_spec(),
    {
        match self {
            AgentStateField::AgentId => "agent_id",
            AgentStateField::AgentName => "agent_name",
            AgentStateField::Position => "position",
            AgentStateField::Direction => "direction",
            AgentStateField::Velocity => "velocity",
            AgentStateField::Shape => "shape",
            AgentStateField::Height => "height",
            AgentStateField::Scale => "scale",
            AgentStateField::Color => "color",
            AgentStateField::RGB => "rgb",
            AgentStateField::Hidden => "hidden",
        }
    }

    pub fn field_type(&self) -> (field_type: FieldType)
        ensures
            field_type == self.field_type_spec(),
    {
        match self {
            AgentStateField::AgentId => FieldType::new(
                FieldTypeVariant::Preset(PresetFieldType::Id),
                false,
            ),
            AgentStateField::AgentName | AgentStateField::Shape | AgentStateField::Color => FieldType::new(
                FieldTypeVariant::String,
                true,
            ),
            AgentStateField::Position
            | AgentStateField::Direction
            | AgentStateField::Velocity
            | AgentStateField::Scale
            | AgentStateField::RGB => FieldType::new(
                FieldTypeVariant::FixedLengthArray {
                    kind: Box::new(FieldType::new(FieldTypeVariant::Number, false)),
                    len: 3,
                },
                true,
            ),
            AgentStateField::Height => FieldType::new(FieldTypeVariant::Number, true),
            AgentStateField::Hidden => FieldType::new(FieldTypeVariant::Boolean, false),
        }
    }
}

/// The hidden field that tells where the context of an agent stands. Every
/// agent has a context, so the field is never missing.
pub open spec fn context_index_key() -> FieldSpecModel {
    FieldSpecModel {
        name: CONTEXT_INDEX_FIELD_NAME@,
        field_type: FieldType {
            variant: FieldTypeVariant::Preset(PresetFieldType::Index),
            nullable: false,
        },
        scope: FieldScope::Hidden,
    }
}

/// The hidden field that tells where an agent stood in the previous step: the
/// index of its group and its index in the group. A new agent has none.
pub open spec fn last_state_index_key() -> FieldSpecModel {
    FieldSpecModel {
        name: PREVIOUS_INDEX_FIELD_NAME@,
        field_type: FieldType {
            variant: FieldTypeVariant::FixedLengthArray {
                kind: Box::new(
                    FieldType {
                        variant: FieldTypeVariant::Preset(PresetFieldType::Index),
                        nullable: false,
                    },
                ),
                len: 2,
            },
            nullable: true,
        },
        scope: FieldScope::Hidden,
    }
}

/// The fields that the engine declares on every agent, in the order in which
/// it declares them.
pub open spec fn base_agent_fields() -> Seq<FieldSpecModel> {
    seq![
        AgentStateField::AgentId.declaration(),
        AgentStateField::AgentName.declaration(),
        AgentStateField::Position.declaration(),
        AgentStateField::Direction.declaration(),
        AgentStateField::Velocity.declaration(),
        AgentStateField::Shape.declaration(),
        AgentStateField::Height.declaration(),
        AgentStateField::Scale.declaration(),
        AgentStateField::Color.declaration(),
        AgentStateField::RGB.declaration(),
        AgentStateField::Hidden.declaration(),
        context_index_key(),
        last_state_index_key(),
    ]
}

/// One of the engine's own fields, as it is declared.
fn base_field(field: AgentStateField) -> (spec: FieldSpec)
    ensures
        spec@ == field.declaration(),
{
    FieldSpec {
        name: String::from_str(field.name()),
        field_type: field.field_type(),
        scope: FieldScope::Agent,
    }
}

/// The engine's own fields, in the order in which it declares them.
fn base_agent_field_specs() -> (fields: Vec<FieldSpec>)
    ensures
        declarations(fields@) == base_agent_fields(),
{
    let mut fields: Vec<FieldSpec> = Vec::new();
    fields.push(base_field(AgentStateField::AgentId));
    fields.push(base_field(AgentStateField::AgentName));
    fields.push(base_field(AgentStateField::Position));
    fields.push(base_field(AgentStateField::Direction));
    fields.push(base_field(AgentStateField::Velocity));
    fields.push(base_field(AgentStateField::Shape));
    fields.push(base_field(AgentStateField::Height));
    fields.push(base_field(AgentStateField::Scale));
    fields.push(base_field(AgentStateField::Color));
    fields.push(base_field(AgentStateField::RGB));
    fields.push(base_field(AgentStateField::Hidden));
    fields.push(
        FieldSpec {
            name: String::from_str(CONTEXT_INDEX_FIELD_NAME),
            field_type: FieldType::new(FieldTypeVariant::Preset(PresetFieldType::Index), false),
            scope: FieldScope::Hidden,
        },
    );
    fields.push(
        FieldSpec {
            name: String::from_str(PREVIOUS_INDEX_FIELD_NAME),
            field_type: FieldType::new(
                FieldTypeVariant::FixedLengthArray {
                    kind: Box::new(
                        FieldType::new(FieldTypeVariant::Preset(PresetFieldType::Index), false),
                    ),
                    len: 2,
                },
                true,
            ),
            scope: FieldScope::Hidden,
        },
    );
    assert(declarations(fields@) =~= base_agent_fields());
    fields
}

/// Declares the engine's own fields on the state of an agent: the fields
/// that every agent has, then the two hidden indices.
///
/// The engine becomes the source. The first field that clashes with one
/// already declared ends the declarations and is reported.
pub fn add_base_agent_fields(field_builder: &mut FieldSpecMapBuilder) -> (outcome: Result<
    (),
    Error,
>)
    ensures
        final(field_builder)@ == old(field_builder)@.with_source(FieldSource::Engine).declare_all(
            base_agent_fields(),
        ).state,
        match old(field_builder)@.with_source(FieldSource::Engine).declare_all(
            base_agent_fields(),
        ).error {
            None => outcome is Ok,
            Some(error) => outcome is Err && outcome->Err_0@ == error,
        },
{
    field_builder.source(FieldSource::Engine);
    let fields = base_agent_field_specs();
    field_builder.add_field_specs(&fields)
}

/// Declares the engine's own fields on the context: the engine becomes the
/// source and declares none.
pub fn add_base_context_fields(field_builder: &mut FieldSpecMapBuilder) -> (outcome: Result<
    (),
    Error,
>)
    ensures
        final(field_builder)@ == old(field_builder)@.with_source(FieldSource::Engine),
        outcome is Ok,
{
    field_builder.source(FieldSource::Engine);
    Ok(())
}

/// What a package contributes: the fields it declares on the state of an
/// agent and on the context, and how its output is to be kept.
#[derive(Debug, PartialEq, Eq)]
pub struct PackageCreator {
    pub state_fields: Vec<FieldSpec>,
    pub context_fields: Vec<FieldSpec>,
    pub persistence_config: String,
}

/// A creator under the type, the name and the number it is registered with.
#[derive(Debug, PartialEq, Eq)]
pub struct RegisteredPackage {
    pub package_type: PackageType,
    pub name: String,
    pub id: PackageId,
    pub creator: PackageCreator,
}

/// The creators that a run can draw on. It is made once and handed to
/// whoever resolves a configuration.
#[derive(Debug, PartialEq, Eq)]
pub struct PackageRegistry {
    pub packages: Vec<RegisteredPackage>,
}

/// The names of the packages of a run, by type and in the order in which
/// they run.
#[derive(Debug, PartialEq, Eq)]
pub struct PackageConfig {
    pub init: Vec<String>,
    pub context: Vec<String>,
    pub state: Vec<String>,
    pub output: Vec<String>,
}

/// The first package registered under a type and a name.
pub open spec fn registered(
    packages: Seq<RegisteredPackage>,
    package_type: PackageType,
    name: Seq<char>,
) -> Option<RegisteredPackage>
    decreases packages.len(),
{
    if packages.len() == 0 {
        None
    } else {
        match registered(packages.drop_last(), package_type, name) {
            Some(package) => Some(package),
            None => if packages.last().package_type == package_type && packages.last().name@
                == name {
                Some(packages.last())
            } else {
                None
            },
        }
    }
}

/// A package that stands at some place of the registry, with none of its
/// type and name before it, is the one registered under them.
pub proof fn lemma_registered_at(
    packages: Seq<RegisteredPackage>,
    package_type: PackageType,
    name: Seq<char>,
    at: int,
)
    requires
        0 <= at < packages.len(),
        registered(packages.take(at), package_type, name) is None,
        packages[at].package_type == package_type,
        packages[at].name@ == name,
    ensures
        registered(packages, package_type, name) == Some(packages[at]),
    decreases packages.len(),
{
    if at == packages.len() - 1 {
        assert(packages.drop_last() =~= packages.take(at));
    } else {
        assert(packages.drop_last().take(at) =~= packages.take(at));
        lemma_registered_at(packages.drop_last(), package_type, name, at);
    }
}

/// The packages that a list of names resolves to, in the order of the
/// names, or the error that names the first package that is not registered.
pub open spec fn resolved(
    packages: Seq<RegisteredPackage>,
    package_type: PackageType,
    names: Seq<Seq<char>>,
) -> Result<Seq<RegisteredPackage>, ErrorModel>
    decreases names.len(),
{
    if names.len() == 0 {
        Ok(Seq::empty())
    } else {
        match resolved(packages, package_type, names.drop_last()) {
            Err(error) => Err(error),
            Ok(found) => match registered(packages, package_type, names.last()) {
                Some(package) => Ok(found.push(package)),
                None => Err(ErrorModel::MissingCreator { package_type, name: names.last() }),
            },
        }
    }
}

/// Once the first names of a list cannot be resolved, the list cannot, for
/// the same reason.
pub proof fn lemma_resolved_stops(
    packages: Seq<RegisteredPackage>,
    package_type: PackageType,
    names: Seq<Seq<char>>,
    prefix: int,
)
    requires
        0 <= prefix <= names.len(),
        resolved(packages, package_type, names.take(prefix)) is Err,
    ensures
        resolved(packages, package_type, names) == resolved(
            packages,
            package_type,
            names.take(prefix),
        ),
    decreases names.len(),
{
    if prefix == names.len() {
        assert(names.take(prefix) =~= names);
    } else {
        assert(names.drop_last().take(prefix) =~= names.take(prefix));
        lemma_resolved_stops(packages, package_type, names.drop_last(), prefix);
    }
}

/// The creators of a run, as a mathematical value.
pub struct CreatorsModel {
    pub init: Seq<RegisteredPackage>,
    pub context: Seq<RegisteredPackage>,
    pub state: Seq<RegisteredPackage>,
    pub output: Seq<RegisteredPackage>,
}

/// The creators that a configuration resolves to. The types are resolved in
/// the order init, context, state, output, and the first package that is
/// not registered is the error.
pub open spec fn creators_of(packages: Seq<RegisteredPackage>, config: PackageConfig) -> Result<
    CreatorsModel,
    ErrorModel,
> {
    match resolved(packages, PackageType::Init, texts(config.init@)) {
        Err(error) => Err(error),
        Ok(init) => match resolved(packages, PackageType::Context, texts(config.context@)) {
            Err(error) => Err(error),
            Ok(context) => match resolved(packages, PackageType::State, texts(config.state@)) {
                Err(error) => Err(error),
                Ok(state) => match resolved(packages, PackageType::Output, texts(config.output@)) {
                    Err(error) => Err(error),
                    Ok(output) => Ok(CreatorsModel { init, context, state, output }),
                },
            },
        },
    }
}

/// The packages that a list of references points to.
pub open spec fn targets(references: Seq<&RegisteredPackage>) -> Seq<RegisteredPackage> {
    Seq::new(references.len(), |i: int| *references[i])
}

/// What a package needs to be set up: its number, its type and the source
/// under which its fields are declared.
#[derive(Clone, Copy, Debug, PartialEq, Eq, Structural)]
pub struct PackageSetup {
    pub id: PackageId,
    pub package_type: PackageType,
    pub source: FieldSource,
}

/// The setup of a package that runs as `package_type`.
pub open spec fn setup_of(package: RegisteredPackage, package_type: PackageType) -> PackageSetup {
    PackageSetup { id: package.id, package_type, source: FieldSource::Package(package.id) }
}

/// The setups of a list of packages that run as `package_type`.
pub open spec fn setups_of(packages: Seq<RegisteredPackage>, package_type: PackageType) -> Seq<
    PackageSetup,
> {
    Seq::new(packages.len(), |i: int| setup_of(packages[i], package_type))
}

/// The packages that run once, when the simulation starts.
#[derive(Debug, PartialEq, Eq)]
pub struct InitPackages {
    pub inner: Vec<PackageSetup>,
}

/// The packages that run in every step, by phase.
#[derive(Debug, PartialEq, Eq)]
pub struct StepPackages {
    pub context: Vec<PackageSetup>,
    pub state: Vec<PackageSetup>,
    pub output: Vec<PackageSetup>,
}

/// The packages of a run, each with what it needs to be set up.
#[derive(Debug, PartialEq, Eq)]
pub struct Packages {
    pub init: InitPackages,
    pub step: StepPackages,
}

/// How the output of each output package is to be kept, by package name.
#[derive(Debug, PartialEq, Eq)]
pub struct OutputPackagesSimConfig {
    pub map: Vec<(String, String)>,
}

/// The entries of a persistence configuration, as mathematical values.
pub open spec fn entries(map: Seq<(String, String)>) -> Seq<(Seq<char>, Seq<char>)> {
    Seq::new(map.len(), |i: int| (map[i].0@, map[i].1@))
}

/// The place of the first entry under a name, if there is one.
pub open spec fn entry_of(map: Seq<(Seq<char>, Seq<char>)>, name: Seq<char>) -> Option<int>
    decreases map.len(),
{
    if map.len() == 0 {
        None
    } else {
        match entry_of(map.drop_last(), name) {
            Some(at) => Some(at),
            None => if map.last().0 == name {
                Some(map.len() - 1)
            } else {
                None
            },
        }
    }
}

/// An entry that stands at some place, with none of its name before it, is
/// the first under that name.
pub proof fn lemma_entry_at(map: Seq<(Seq<char>, Seq<char>)>, name: Seq<char>, at: int)
    requires
        0 <= at < map.len(),
        entry_of(map.take(at), name) is None,
        map[at].0 == name,
    ensures
        entry_of(map, name) == Some(at),
    decreases map.len(),
{
    if at == map.len() - 1 {
        assert(map.drop_last() =~= map.take(at));
    } else {
        assert(map.drop_last().take(at) =~= map.take(at));
        lemma_entry_at(map.drop_last(), name, at);
    }
}

/// The map with `config` under `name`: in place of what stood under the
/// name, or at the end where nothing did.
pub open spec fn with_entry(
    map: Seq<(Seq<char>, Seq<char>)>,
    name: Seq<char>,
    config: Seq<char>,
) -> Seq<(Seq<char>, Seq<char>)> {
    match entry_of(map, name) {
        Some(at) => map.update(at, (name, config)),
        None => map.push((name, config)),
    }
}

/// The persistence configuration of a list of output packages: each package
/// enters its configuration under its name, a later one in place of an
/// earlier one of the same name.
pub open spec fn persistence_of(packages: Seq<RegisteredPackage>) -> Seq<(Seq<char>, Seq<char>)>
    decreases packages.len(),
{
    if packages.len() == 0 {
        Seq::empty()
    } else {
        with_entry(
            persistence_of(packages.drop_last()),
            packages.last().name@,
            packages.last().creator.persistence_config@,
        )
    }
}

/// The fields that a package declares, on the context or on the state.
pub open spec fn fields_of(package: RegisteredPackage, context: bool) -> Seq<FieldSpecModel> {
    if context {
        declarations(package.creator.context_fields@)
    } else {
        declarations(package.creator.state_fields@)
    }
}

/// Declaring the fields of a list of packages in order, each package as its
/// own source, up to the first field that fails.
pub open spec fn declare_packages(
    builder: BuilderModel,
    packages: Seq<RegisteredPackage>,
    context: bool,
) -> Declared
    decreases packages.len(),
{
    if packages.len() == 0 {
        Declared { state: builder, error: None }
    } else {
        let before = declare_packages(builder, packages.drop_last(), context);
        if before.error is Some {
            before
        } else {
            before.state.with_source(FieldSource::Package(packages.last().id)).declare_all(
                fields_of(packages.last(), context),
            )
        }
    }
}

/// Once declaring the fields of the first packages of a list has failed,
/// declaring those of the whole list fails in the same way.
pub proof fn lemma_declare_packages_stops(
    builder: BuilderModel,
    packages: Seq<RegisteredPackage>,
    context: bool,
    prefix: int,
)
    requires
        0 <= prefix <= packages.len(),
        declare_packages(builder, packages.take(prefix), context).error is Some,
    ensures
        declare_packages(builder, packages, context) == declare_packages(
            builder,
            packages.take(prefix),
            context,
        ),
    decreases packages.len(),
{
    if prefix == packages.len() {
        assert(packages.take(prefix) =~= packages);
    } else {
        assert(packages.drop_last().take(prefix) =~= packages.take(prefix));
        lemma_declare_packages_stops(builder, packages.drop_last(), context, prefix);
    }
}

/// The fields of the state of an agent.
#[derive(Debug, PartialEq, Eq)]
pub struct AgentSchema {
    pub field_spec_map: FieldSpecMap,
}

/// The fields of the context.
#[derive(Debug, PartialEq, Eq)]
pub struct ContextSchema {
    pub field_spec_map: FieldSpecMap,
}

impl CreatorsModel {
    /// The fields of the state of an agent, or the clash that forbids the
    /// schema.
    ///
    /// The init packages declare first, and a clash among them is reported.
    /// The context, state and output packages follow: a clash among the
    /// packages of one of these types ends the declarations of that type and
    /// is not reported. The engine declares last, and a clash with its
    /// fields is reported.
    pub open spec fn agent_schema(self) -> Result<Seq<RootFieldSpecModel>, ErrorModel> {
        let init = declare_packages(BuilderModel::empty(), self.init, false);
        match init.error {
            Some(error) => Err(error),
            None => {
                let context = declare_packages(init.state, self.context, false);
                let state = declare_packages(context.state, self.state, false);
                let output = declare_packages(state.state, self.output, false);
                let base = output.state.with_source(FieldSource::Engine).declare_all(
                    base_agent_fields(),
                );
                match base.error {
                    Some(error) => Err(error),
                    None => Ok(base.state.fields),
                }
            },
        }
    }

    /// The fields of the context: those that the context packages declare,
    /// up to the first clash, which is not reported.
    pub open spec fn context_schema(self) -> Seq<RootFieldSpecModel> {
        declare_packages(BuilderModel::empty(), self.context, true).state.fields
    }
}

/// The creators of the packages of one run, by type and in the order in
/// which the packages run.
pub struct PackageCreators<'r> {
    init: Vec<&'r RegisteredPackage>,
    context: Vec<&'r RegisteredPackage>,
    state: Vec<&'r RegisteredPackage>,
    output: Vec<&'r RegisteredPackage>,
}

impl<'r> View for PackageCreators<'r> {
    type V = CreatorsModel;

    closed spec fn view(&self) -> CreatorsModel {
        CreatorsModel {
            init: targets(self.init@),
            context: targets(self.context@),
            state: targets(self.state@),
            output: targets(self.output@),
        }
    }
}

impl PackageRegistry {
    /// The first package registered under a type and a name.
    pub fn get(&self, package_type: PackageType, name: &String) -> (found: Option<
        &RegisteredPackage,
    >)
        ensures
            match registered(self.packages@, package_type, name@) {
                Some(package) => found is Some && *found->Some_0 == package,
                None => found is None,
            },
    {
        let mut index: usize = 0;
        while index < self.packages.len()
            invariant
                index <= self.packages.len(),
                registered(self.packages@.take(index as int), package_type, name@) is None,
            decreases self.packages.len() - index,
        {
            let package = &self.packages[index];
            if package.package_type == package_type && package.name == *name {
                proof {
                    lemma_registered_at(self.packages@, package_type, name@, index as int);
                }
                return Some(package);
            }
            proof {
                assert(self.packages@.take(index + 1).drop_last() =~= self.packages@.take(
                    index as int,
                ));
            }
            index += 1;
        }
        proof {
            assert(self.packages@.take(index as int) =~= self.packages@);
        }
        None
    }

    /// The packages of one type that a list of names resolves to.
    fn resolve<'r>(&'r self, package_type: PackageType, names: &Vec<String>) -> (outcome: Result<
        Vec<&'r RegisteredPackage>,
        Error,
    >)
        ensures
            match resolved(self.packages@, package_type, texts(names@)) {
                Ok(found) => outcome is Ok && targets(outcome->Ok_0@) == found,
                Err(error) => outcome is Err && outcome->Err_0@ == error,
            },
    {
        let ghost all = texts(names@);
        let mut found: Vec<&'r RegisteredPackage> = Vec::new();
        let mut index: usize = 0;
        proof {
            assert(all.take(0) =~= Seq::empty());
            assert(targets(found@) =~= Seq::empty());
        }
        while index < names.len()
            invariant
                index <= names.len(),
                all == texts(names@),
                resolved(self.packages@, package_type, all.take(index as int)) == Ok::<
                    Seq<RegisteredPackage>,
                    ErrorModel,
                >(targets(found@)),
            decreases names.len() - index,
        {
            let ghost earlier = targets(found@);
            proof {
                assert(all.take(index + 1).drop_last() =~= all.take(index as int));
                assert(all.take(index + 1).last() == names[index as int]@);
            }
            match self.get(package_type, &names[index]) {
                Some(package) => {
                    found.push(package);
                    assert(targets(found@) =~= earlier.push(*package));
                },
                None => {
                    proof {
                        lemma_resolved_stops(self.packages@, package_type, all, index + 1);
                    }
                    return Err(Error::MissingCreator { package_type, name: names[index].clone() });
                },
            }
            index += 1;
        }
        proof {
            assert(all.take(index as int) =~= all);
        }
        Ok(found)
    }
}

/// The setups of a list of packages that run as `package_type`.
fn setups(packages: &Vec<&RegisteredPackage>, package_type: PackageType) -> (setups: Vec<
    PackageSetup,
>)
    ensures
        setups@ == setups_of(targets(packages@), package_type),
{
    let mut setups: Vec<PackageSetup> = Vec::new();
    let mut index: usize = 0;
    while index < packages.len()
        invariant
            index <= packages.len(),
            setups.len() == index,
            forall|at: int|
                0 <= at < index ==> setups[at] == setup_of(*packages[at], package_type),
        decreases packages.len() - index,
    {
        let id = packages[index].id;
        setups.push(PackageSetup { id, package_type, source: FieldSource::Package(id) });
        index += 1;
    }
    assert(setups@ =~= setups_of(targets(packages@), package_type));
    setups
}

/// Declares the fields of a list of packages, each package as its own
/// source, and stops at the first field that fails.
fn add_package_fields(
    field_builder: &mut FieldSpecMapBuilder,
    packages: &Vec<&RegisteredPackage>,
    context: bool,
) -> (outcome: Result<(), Error>)
    ensures
        final(field_builder)@ == declare_packages(
            old(field_builder)@,
            targets(packages@),
            context,
        ).state,
        match declare_packages(old(field_builder)@, targets(packages@), context).error {
            None => outcome is Ok,
            Some(error) => outcome is Err && outcome->Err_0@ == error,
        },
{
    let ghost all = targets(packages@);
    let ghost start = field_builder@;
    let mut index: usize = 0;
    proof {
        assert(all.take(0) =~= Seq::empty());
    }
    while index < packages.len()
        invariant
            index <= packages.len(),
            all == targets(packages@),
            start == old(field_builder)@,
            declare_packages(start, all.take(index as int), context) == (Declared {
                state: field_builder@,
                error: None,
            }),
        decreases packages.len() - index,
    {
        let package = packages[index];
        proof {
            assert(all.take(index + 1).drop_last() =~= all.take(index as int));
            assert(all.take(index + 1).last() == *package);
        }
        field_builder.source(FieldSource::Package(package.id));
        let outcome = if context {
            field_builder.add_field_specs(&package.creator.context_fields)
        } else {
            field_builder.add_field_specs(&package.creator.state_fields)
        };
        if let Err(error) = outcome {
            proof {
                lemma_declare_packages_stops(start, all, context, index + 1);
            }
            return Err(error);
        }
        index += 1;
    }
    proof {
        assert(all.take(index as int) =~= all);
    }
    Ok(())
}

impl<'r> PackageCreators<'r> {
    /// Resolves the names of a configuration against the registry.
    ///
    /// The creators stand in the order of the names. A name without a
    /// creator of its type is an error that carries the type and the name;
    /// the first such name in the order init, context, state, output is the
    /// one reported.
    pub fn from_config(config: &PackageConfig, registry: &'r PackageRegistry) -> (outcome: Result<
        PackageCreators<'r>,
        Error,
    >)
        ensures
            match creators_of(registry.packages@, *config) {
                Ok(creators) => outcome is Ok && outcome->Ok_0@ == creators,
                Err(error) => outcome is Err && outcome->Err_0@ == error,
            },
    {
        let init = match registry.resolve(PackageType::Init, &config.init) {
            Ok(found) => found,
            Err(error) => {
                return Err(error);
            },
        };
        let context = match registry.resolve(PackageType::Context, &config.context) {
            Ok(found) => found,
            Err(error) => {
                return Err(error);
            },
        };
        let state = match registry.resolve(PackageType::State, &config.state) {
            Ok(found) => found,
            Err(error) => {
                return Err(error);
            },
        };
        let output = match registry.resolve(PackageType::Output, &config.output) {
            Ok(found) => found,
            Err(error) => {
                return Err(error);
            },
        };
        Ok(PackageCreators { init, context, state, output })
    }

    /// What each package of the run needs to be set up, by type and in the
    /// order in which the packages run.
    pub fn new_init(&self) -> (packages: Packages)
        ensures
            packages.init.inner@ == setups_of(self@.init, PackageType::Init),
            packages.step.context@ == setups_of(self@.context, PackageType::Context),
            packages.step.state@ == setups_of(self@.state, PackageType::State),
            packages.step.output@ == setups_of(self@.output, PackageType::Output),
    {
        Packages {
            init: InitPackages { inner: setups(&self.init, PackageType::Init) },
            step: StepPackages {
                context: setups(&self.context, PackageType::Context),
                state: setups(&self.state, PackageType::State),
                output: setups(&self.output, PackageType::Output),
            },
        }
    }

    /// How the output of each output package is to be kept, by package
    /// name. Of two packages of one name the later one counts.
    pub fn get_output_persistence_config(&self) -> (config: OutputPackagesSimConfig)
        ensures
            entries(config.map@) == persistence_of(self@.output),
    {
        let ghost all = targets(self.output@);
        let mut map: Vec<(String, String)> = Vec::new();
        let mut index: usize = 0;
        proof {
            assert(all.take(0) =~= Seq::empty());
            assert(entries(map@) =~= Seq::empty());
        }
        while index < self.output.len()
            invariant
                index <= self.output.len(),
                all == targets(self.output@),
                entries(map@) == persistence_of(all.take(index as int)),
            decreases self.output.len() - index,
        {
            let package = self.output[index];
            proof {
                assert(all.take(index + 1).drop_last() =~= all.take(index as int));
                assert(all.take(index + 1).last() == *package);
            }
            insert_entry(&mut map, package.name.clone(), package.creator.persistence_config.clone());
            index += 1;
        }
        proof {
            assert(all.take(index as int) =~= all);
        }
        OutputPackagesSimConfig { map }
    }

    /// The schema of the state of an agent: the fields of the init, context,
    /// state and output packages, then those of the engine.
    ///
    /// A clash among the init packages or with the engine's fields is the
    /// error. A clash among the packages of another type only ends the
    /// declarations of that type.
    pub fn get_agent_schema(&self) -> (outcome: Result<AgentSchema, Error>)
        ensures
            match self@.agent_schema() {
                Ok(fields) => outcome is Ok && outcome->Ok_0.field_spec_map@ == fields,
                Err(error) => outcome is Err && outcome->Err_0@ == error,
            },
    {
        let mut field_builder = FieldSpecMapBuilder::new();
        if let Err(error) = add_package_fields(&mut field_builder, &self.init, false) {
            return Err(error);
        }
        let _ = add_package_fields(&mut field_builder, &self.context, false);
        let _ = add_package_fields(&mut field_builder, &self.state, false);
        let _ = add_package_fields(&mut field_builder, &self.output, false);
        if let Err(error) = add_base_agent_fields(&mut field_builder) {
            return Err(error);
        }
        Ok(AgentSchema { field_spec_map: field_builder.build() })
    }

    /// The schema of the context: the fields that the context packages
    /// declare on it, up to the first clash. The engine declares none.
    pub fn get_context_schema(&self) -> (outcome: Result<ContextSchema, Error>)
        ensures
            outcome is Ok,
            outcome->Ok_0.field_spec_map@ == self@.context_schema(),
    {
        let mut field_builder = FieldSpecMapBuilder::new();
        let _ = add_package_fields(&mut field_builder, &self.context, true);
        let _ = add_base_context_fields(&mut field_builder);
        Ok(ContextSchema { field_spec_map: field_builder.build() })
    }
}

/// Enters `config` under `name`, in place of what stood under the name.
fn insert_entry(map: &mut Vec<(String, String)>, name: String, config: String)
    ensures
        entries(final(map)@) == with_entry(entries(old(map)@), name@, config@),
{
    let ghost before = entries(map@);
    let mut index: usize = 0;
    proof {
        assert(before.take(0) =~= Seq::empty());
    }
    while index < map.len()
        invariant
            index <= map.len(),
            before == entries(map@),
            *map == *old(map),
            entry_of(before.take(index as int), name@) is None,
        decreases map.len() - index,
    {
        if map[index].0 == name {
            proof {
                lemma_entry_at(before, name@, index as int);
            }
            map.set(index, (name, config));
            assert(entries(map@) =~= before.update(index as int, (name@, config@)));
            return ;
        }
        proof {
            assert(before.take(index + 1).drop_last() =~= before.take(index as int));
        }
        index += 1;
    }
    proof {
        assert(before.take(index as int) =~= before);
    }
    map.push((name, config));
    assert(entries(map@) =~= before.push((name@, config@)));
}

/// The place of the first failure among outcomes, if one failed.
pub open spec fn first_error_at<T>(outcomes: Seq<Result<T, Error>>) -> Option<int>
    decreases outcomes.len(),
{
    if outcomes.len() == 0 {
        None
    } else {
        match first_error_at(outcomes.drop_last()) {
            Some(at) => Some(at),
            None => if outcomes.last() is Err {
                Some(outcomes.len() - 1)
            } else {
                None
            },
        }
    }
}

/// The first failure among outcomes, if one failed.
pub open spec fn first_error<T>(outcomes: Seq<Result<T, Error>>) -> Option<Error> {
    match first_error_at(outcomes) {
        Some(at) => Some(outcomes[at]->Err_0),
        None => None,
    }
}

/// The values of outcomes that all succeeded, in order.
pub open spec fn values_of<T>(outcomes: Seq<Result<T, Error>>) -> Seq<T> {
    Seq::new(outcomes.len(), |i: int| outcomes[i]->Ok_0)
}

/// The place that `first_error_at` names holds a failure and no place
/// before it does; where it names none, no outcome is a failure.
pub proof fn lemma_first_error_at<T>(outcomes: Seq<Result<T, Error>>)
    ensures
        match first_error_at(outcomes) {
            Some(at) => 0 <= at < outcomes.len() && outcomes[at] is Err && forall|before: int|
                0 <= before < at ==> (#[trigger] outcomes[before]) is Ok,
            None => forall|at: int| 0 <= at < outcomes.len() ==> (#[trigger] outcomes[at]) is Ok,
        },
    decreases outcomes.len(),
{
    if outcomes.len() > 0 {
        lemma_first_error_at(outcomes.drop_last());
        match first_error_at(outcomes.drop_last()) {
            Some(found) => {
                assert(outcomes.drop_last()[found] == outcomes[found]);
                assert forall|before: int| 0 <= before < found implies (
                #[trigger] outcomes[before]) is Ok by {
                    assert(outcomes.drop_last()[before] == outcomes[before]);
                }
            },
            None => {
                assert forall|at: int| 0 <= at < outcomes.len() - 1 implies (
                #[trigger] outcomes[at]) is Ok by {
                    assert(outcomes.drop_last()[at] == outcomes[at]);
                }
            },
        }
    }
}

/// A failure that stands at some place, with none before it, is the first.
pub proof fn lemma_first_error_found<T>(outcomes: Seq<Result<T, Error>>, at: int)
    requires
        0 <= at < outcomes.len(),
        first_error_at(outcomes.take(at)) is None,
        outcomes[at] is Err,
    ensures
        first_error_at(outcomes) == Some(at),
    decreases outcomes.len(),
{
    if at == outcomes.len() - 1 {
        assert(outcomes.drop_last() =~= outcomes.take(at));
    } else {
        assert(outcomes.drop_last().take(at) =~= outcomes.take(at));
        lemma_first_error_found(outcomes.drop_last(), at);
    }
}

/// What a run of creators comes to: the failure of the first creator that
/// failed, or, where none failed, what they made, in their order.
///
/// The outcomes stand in the order in which the creators ran. A run that
/// stops at its first failure hands in the outcomes up to that failure.
pub fn first_failure<T>(outcomes: Vec<Result<T, Error>>) -> (outcome: Result<Vec<T>, Error>)
    ensures
        match first_error_at(outcomes@) {
            Some(at) => outcome is Err && outcome->Err_0 == outcomes@[at]->Err_0,
            None => outcome is Ok && outcome->Ok_0@ == values_of(outcomes@),
        },
{
    let mut values: Vec<T> = Vec::new();
    proof {
        assert(outcomes@.take(0) =~= Seq::empty());
    }
    for item in iter: outcomes
        invariant
            iter.seq() == outcomes@,
            values.len() == iter.index(),
            first_error_at(outcomes@.take(iter.index() as int)) is None,
            values@ == values_of(outcomes@.take(iter.index() as int)),
    {
        let ghost index = iter.index() as int;
        let ghost earlier = values@;
        proof {
            assert(outcomes@.take(index + 1).drop_last() =~= outcomes@.take(index));
            assert(outcomes@.take(index + 1).last() == item);
        }
        match item {
            Ok(value) => {
                values.push(value);
                assert(values@ =~= values_of(outcomes@.take(index + 1)));
            },
            Err(error) => {
                proof {
                    lemma_first_error_found(outcomes@, index);
                }
                return Err(error);
            },
        }
    }
    proof {
        assert(outcomes@.take(outcomes.len() as int) =~= outcomes@);
    }
    Ok(values)
}

/// What the creators of a run made, by type and in the order in which the
/// packages run.
#[derive(Debug, PartialEq, Eq)]
pub struct CreatedPackages<T> {
    pub init: Vec<T>,
    pub context: Vec<T>,
    pub state: Vec<T>,
    pub output: Vec<T>,
}

/// The first failure of a run of the creators of all four types, in the
/// order init, context, state, output.
pub open spec fn first_error_of_run<T>(
    init: Seq<Result<T, Error>>,
    context: Seq<Result<T, Error>>,
    state: Seq<Result<T, Error>>,
    output: Seq<Result<T, Error>>,
) -> Option<Error> {
    if first_error(init) is Some {
        first_error(init)
    } else if first_error(context) is Some {
        first_error(context)
    } else if first_error(state) is Some {
        first_error(state)
    } else {
        first_error(output)
    }
}

/// The packages of a run, out of what each creator came to.
///
/// The outcomes of each type stand in the order in which the creators ran.
/// Where a creator failed, the first failure in the order init, context,
/// state, output is the error; where none did, the packages are what the
/// creators made, in their order.
pub fn create_packages<T>(
    init: Vec<Result<T, Error>>,
    context: Vec<Result<T, Error>>,
    state: Vec<Result<T, Error>>,
    output: Vec<Result<T, Error>>,
) -> (outcome: Result<CreatedPackages<T>, Error>)
    ensures
        match first_error_of_run(init@, context@, state@, output@) {
            Some(error) => outcome == Err::<CreatedPackages<T>, Error>(error),
            None => outcome is Ok && outcome->Ok_0.init@ == values_of(init@)
                && outcome->Ok_0.context@ == values_of(context@) && outcome->Ok_0.state@
                == values_of(state@) && outcome->Ok_0.output@ == values_of(output@),
        },
{
    let init = match first_failure(init) {
        Ok(values) => values,
        Err(error) => {
            return Err(error);
        },
    };
    let context = match first_failure(context) {
        Ok(values) => values,
        Err(error) => {
            return Err(error);
        },
    };
    let state = match first_failure(state) {
        Ok(values) => values,
        Err(error) => {
            return Err(error);
        },
    };
    let output = match first_failure(output) {
        Ok(values) => values,
        Err(error) => {
            return Err(error);
        },
    };
    Ok(CreatedPackages { init, context, state, output })
}

/// The names of a list of packages.
pub open spec fn names_of(packages: Seq<RegisteredPackage>) -> Seq<Seq<char>> {
    Seq::new(packages.len(), |i: int| packages[i].name@)
}

/// The persistence configuration that the first `upto` configurations make
/// under the names that stand at their places: each enters under its name,
/// a later one in place of an earlier one of the same name.
pub open spec fn persistence_from(
    names: Seq<Seq<char>>,
    configs: Seq<Seq<char>>,
    upto: int,
) -> Seq<(Seq<char>, Seq<char>)>
    decreases upto,
{
    if upto <= 0 {
        Seq::empty()
    } else {
        with_entry(
            persistence_from(names, configs, upto - 1),
            names[upto - 1],
            configs[upto - 1],
        )
    }
}

/// The number of output packages that have a configuration among `count`.
pub open spec fn configured(packages: int, count: int) -> int {
    if packages <= count {
        packages
    } else {
        count
    }
}

/// The texts of the values of outcomes that all succeeded.
pub open spec fn config_texts(outcomes: Seq<Result<String, Error>>) -> Seq<Seq<char>> {
    Seq::new(outcomes.len(), |i: int| outcomes[i]->Ok_0@)
}

impl<'r> PackageCreators<'r> {
    /// How the output of each output package is to be kept, out of what
    /// each output creator came to when it was asked.
    ///
    /// The outcomes stand in the order of the output packages. Where a
    /// creator failed, the first failure is the error. Where none did, each
    /// configuration enters under the name of its package, a later one in
    /// place of an earlier one of the same name. Only the output packages
    /// are read.
    pub fn output_persistence_config_from(&self, outcomes: Vec<Result<String, Error>>) -> (outcome:
        Result<OutputPackagesSimConfig, Error>)
        ensures
            match first_error_at(outcomes@) {
                Some(at) => outcome is Err && outcome->Err_0 == outcomes@[at]->Err_0,
                None => outcome is Ok && entries(outcome->Ok_0.map@) == persistence_from(
                    names_of(self@.output),
                    config_texts(outcomes@),
                    configured(self@.output.len() as int, outcomes@.len() as int),
                ),
            },
    {
        let ghost all = config_texts(outcomes@);
        let configs = match first_failure(outcomes) {
            Ok(configs) => configs,
            Err(error) => {
                return Err(error);
            },
        };
        let ghost names = names_of(targets(self.output@));
        let count = if self.output.len() <= configs.len() {
            self.output.len()
        } else {
            configs.len()
        };
        let mut map: Vec<(String, String)> = Vec::new();
        let mut index: usize = 0;
        proof {
            assert(entries(map@) =~= Seq::empty());
        }
        while index < count
            invariant
                index <= count,
                count <= self.output.len(),
                count <= configs.len(),
                configs.len() == all.len(),
                names == names_of(targets(self.output@)),
                forall|i: int| 0 <= i < configs.len() ==> configs[i]@ == #[trigger] all[i],
                entries(map@) == persistence_from(names, all, index as int),
            decreases count - index,
        {
            let package = self.output[index];
            proof {
                assert(names[index as int] == package.name@);
                assert(all[index as int] == configs[index as int]@);
            }
            insert_entry(&mut map, package.name.clone(), configs[index].clone());
            index += 1;
        }
        Ok(OutputPackagesSimConfig { map })
    }
}

/// Where every output package has declared its configuration, the
/// configuration of the run is the one that `persistence_of` names.
pub proof fn lemma_persistence_declared(packages: Seq<RegisteredPackage>, upto: int)
    requires
        0 <= upto <= packages.len(),
    ensures
        persistence_from(
            names_of(packages),
            Seq::new(packages.len(), |i: int| packages[i].creator.persistence_config@),
            upto,
        ) == persistence_of(packages.take(upto)),
    decreases upto,
{
    if upto > 0 {
        lemma_persistence_declared(packages, upto - 1);
        assert(packages.take(upto).drop_last() =~= packages.take(upto - 1));
    } else {
        assert(packages.take(0) =~= Seq::empty());
    }
}

/// The setups of a run in the order in which their creators are asked:
/// init, context, state, output.
pub open spec fn run_order(packages: Packages) -> Seq<PackageSetup> {
    packages.init.inner@ + packages.step.context@ + packages.step.state@ + packages.step.output@
}

/// The setup whose creator is asked next among those of a list, given how
/// many have answered and whether one of them failed: none after a failure
/// and none past the end.
pub fn next_of(setups: &Vec<PackageSetup>, answered: usize, failed: bool) -> (next: Option<
    PackageSetup,
>)
    ensures
        failed || answered >= setups.len() ==> next is None,
        !failed && answered < setups.len() ==> next == Some(setups[answered as int]),
{
    if !failed && answered < setups.len() {
        Some(setups[answered])
    } else {
        None
    }
}

/// The setup whose creator is asked next in a run, given how many creators
/// have answered and whether one of them failed.
///
/// The creators are asked in the order init, context, state, output. After
/// a failure no creator is asked, and none is asked past the end.
pub fn next_setup(packages: &Packages, answered: usize, failed: bool) -> (next: Option<
    PackageSetup,
>)
    ensures
        failed || answered >= run_order(*packages).len() ==> next is None,
        !failed && answered < run_order(*packages).len() ==> next == Some(
            run_order(*packages)[answered as int],
        ),
{
    if failed {
        return None;
    }
    let init = &packages.init.inner;
    let context = &packages.step.context;
    let state = &packages.step.state;
    let output = &packages.step.output;
    if answered < init.len() {
        return Some(init[answered]);
    }
    let answered = answered - init.len();
    if answered < context.len() {
        return Some(context[answered]);
    }
    let answered = answered - context.len();
    if answered < state.len() {
        return Some(state[answered]);
    }
    let answered = answered - state.len();
    if answered < output.len() {
        return Some(output[answered]);
    }
    None
}

} // verus!
