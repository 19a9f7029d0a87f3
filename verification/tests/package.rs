use hash_graph::package::{
    add_base_agent_fields, add_base_context_fields, create_packages, first_failure, next_of,
    next_setup,
    AgentStateField, CreatedPackages, OutputPackagesSimConfig, PackageConfig,
    PackageCreator, PackageCreators, PackageRegistry, PackageSetup, RegisteredPackage,
    CONTEXT_INDEX_FIELD_NAME, PREVIOUS_INDEX_FIELD_NAME,
};
use hash_graph::schema::{
    Error, FieldScope, FieldSource, FieldSpec, FieldSpecMapBuilder, FieldType, FieldTypeVariant,
    PackageId, PackageType, PresetFieldType, RootFieldSpec,
};

fn number_type() -> FieldType {
    FieldType::new(FieldTypeVariant::Number, false)
}

fn text_type() -> FieldType {
    FieldType::new(FieldTypeVariant::String, true)
}

fn field(name: &str, field_type: FieldType, scope: FieldScope) -> FieldSpec {
    FieldSpec { name: name.to_owned(), field_type, scope }
}

fn package(
    package_type: PackageType,
    name: &str,
    id: u64,
    state_fields: Vec<FieldSpec>,
    context_fields: Vec<FieldSpec>,
) -> RegisteredPackage {
    RegisteredPackage {
        package_type,
        name: name.to_owned(),
        id: PackageId(id),
        creator: PackageCreator {
            state_fields,
            context_fields,
            persistence_config: format!("{{\"package\":\"{}\"}}", name),
        },
    }
}

fn names(list: &[&str]) -> Vec<String> {
    list.iter().map(|name| (*name).to_owned()).collect()
}

fn registry() -> PackageRegistry {
    PackageRegistry {
        packages: vec![
            package(
                PackageType::Init,
                "json",
                1,
                vec![field("seed", number_type(), FieldScope::Private)],
                vec![],
            ),
            package(
                PackageType::Context,
                "neighbors",
                2,
                vec![field("search_radius", number_type(), FieldScope::Agent)],
                vec![field("neighbors", text_type(), FieldScope::Agent)],
            ),
            package(
                PackageType::State,
                "behavior",
                3,
                vec![
                    field("behaviors", text_type(), FieldScope::Agent),
                    field("cursor", number_type(), FieldScope::Hidden),
                ],
                vec![],
            ),
            package(PackageType::Output, "analysis", 4, vec![], vec![]),
            package(PackageType::Output, "json_state", 5, vec![], vec![]),
            package(PackageType::Output, "json", 6, vec![], vec![]),
        ],
    }
}

fn config() -> PackageConfig {
    PackageConfig {
        init: names(&["json"]),
        context: names(&["neighbors"]),
        state: names(&["behavior"]),
        output: names(&["json_state", "analysis"]),
    }
}

fn setup(id: u64, package_type: PackageType) -> PackageSetup {
    PackageSetup { id: PackageId(id), package_type, source: FieldSource::Package(PackageId(id)) }
}

fn root(name: &str, field_type: FieldType, scope: FieldScope, source: FieldSource) -> RootFieldSpec {
    RootFieldSpec { inner: field(name, field_type, scope), source }
}

fn vector_type() -> FieldType {
    FieldType::new(
        FieldTypeVariant::FixedLengthArray { kind: Box::new(number_type()), len: 3 },
        true,
    )
}

fn base_fields() -> Vec<RootFieldSpec> {
    let agent = |name: &str, field_type: FieldType| {
        root(name, field_type, FieldScope::Agent, FieldSource::Engine)
    };
    vec![
        agent("agent_id", FieldType::new(FieldTypeVariant::Preset(PresetFieldType::Id), false)),
        agent("agent_name", text_type()),
        agent("position", vector_type()),
        agent("direction", vector_type()),
        agent("velocity", vector_type()),
        agent("shape", text_type()),
        agent("height", FieldType::new(FieldTypeVariant::Number, true)),
        agent("scale", vector_type()),
        agent("color", text_type()),
        agent("rgb", vector_type()),
        agent("hidden", FieldType::new(FieldTypeVariant::Boolean, false)),
        root(
            "__context_index",
            FieldType::new(FieldTypeVariant::Preset(PresetFieldType::Index), false),
            FieldScope::Hidden,
            FieldSource::Engine,
        ),
        root(
            "previous_index",
            FieldType::new(
                FieldTypeVariant::FixedLengthArray {
                    kind: Box::new(FieldType::new(
                        FieldTypeVariant::Preset(PresetFieldType::Index),
                        false,
                    )),
                    len: 2,
                },
                true,
            ),
            FieldScope::Hidden,
            FieldSource::Engine,
        ),
    ]
}

#[test]
fn creators_follow_the_order_of_the_configuration() {
    let registry = registry();
    let creators = PackageCreators::from_config(&config(), &registry).expect("all are registered");
    let packages = creators.new_init();
    assert_eq!(packages.init.inner, vec![setup(1, PackageType::Init)]);
    assert_eq!(packages.step.context, vec![setup(2, PackageType::Context)]);
    assert_eq!(packages.step.state, vec![setup(3, PackageType::State)]);
    assert_eq!(
        packages.step.output,
        vec![setup(5, PackageType::Output), setup(4, PackageType::Output)]
    );
}

#[test]
fn a_name_is_looked_up_under_its_type() {
    let registry = registry();
    let mut wanted = config();
    wanted.output = names(&["json"]);
    let creators = PackageCreators::from_config(&wanted, &registry).expect("all are registered");
    assert_eq!(creators.new_init().step.output, vec![setup(6, PackageType::Output)]);
    assert_eq!(
        registry.get(PackageType::Init, &"json".to_owned()).map(|found| found.id),
        Some(PackageId(1))
    );
    assert_eq!(registry.get(PackageType::State, &"json".to_owned()), None);
}

#[test]
fn the_first_missing_creator_is_reported() {
    let registry = registry();
    let mut wanted = config();
    wanted.state = names(&["behavior", "topology"]);
    wanted.output = names(&["nothing"]);
    assert_eq!(
        PackageCreators::from_config(&wanted, &registry).err(),
        Some(Error::MissingCreator {
            package_type: PackageType::State,
            name: "topology".to_owned()
        })
    );
    wanted.init = names(&["json", "analysis"]);
    assert_eq!(
        PackageCreators::from_config(&wanted, &registry).err(),
        Some(Error::MissingCreator { package_type: PackageType::Init, name: "analysis".to_owned() })
    );
}

#[test]
fn an_empty_configuration_has_no_packages() {
    let registry = registry();
    let empty = PackageConfig { init: vec![], context: vec![], state: vec![], output: vec![] };
    let creators = PackageCreators::from_config(&empty, &registry).expect("nothing to resolve");
    let packages = creators.new_init();
    assert_eq!(packages.init.inner, vec![]);
    assert_eq!(packages.step.output, vec![]);
    assert_eq!(creators.get_output_persistence_config().map, vec![]);
    assert_eq!(creators.get_agent_schema().unwrap().field_spec_map.field_specs, base_fields());
    assert_eq!(creators.get_context_schema().unwrap().field_spec_map.field_specs, vec![]);
}

#[test]
fn output_persistence_is_kept_by_name() {
    let registry = registry();
    let mut wanted = config();
    wanted.output = names(&["json_state", "analysis", "json_state"]);
    let creators = PackageCreators::from_config(&wanted, &registry).expect("all are registered");
    assert_eq!(
        creators.get_output_persistence_config().map,
        vec![
            ("json_state".to_owned(), "{\"package\":\"json_state\"}".to_owned()),
            ("analysis".to_owned(), "{\"package\":\"analysis\"}".to_owned()),
        ]
    );
}

#[test]
fn a_later_package_of_a_name_replaces_the_configuration() {
    let mut registry = registry();
    registry.packages.push(RegisteredPackage {
        package_type: PackageType::Output,
        name: "copy".to_owned(),
        id: PackageId(9),
        creator: PackageCreator {
            state_fields: vec![],
            context_fields: vec![],
            persistence_config: "first".to_owned(),
        },
    });
    let wanted = PackageConfig {
        init: vec![],
        context: vec![],
        state: vec![],
        output: names(&["copy", "analysis", "copy"]),
    };
    let creators = PackageCreators::from_config(&wanted, &registry).expect("all are registered");
    let map = creators.get_output_persistence_config().map;
    assert_eq!(map.len(), 2);
    assert_eq!(map[0], ("copy".to_owned(), "first".to_owned()));
}

#[test]
fn the_agent_schema_holds_package_fields_then_engine_fields() {
    let registry = registry();
    let creators = PackageCreators::from_config(&config(), &registry).expect("all are registered");
    let schema = creators.get_agent_schema().expect("no field clashes");
    let mut expected = vec![
        root("seed", number_type(), FieldScope::Private, FieldSource::Package(PackageId(1))),
        root("search_radius", number_type(), FieldScope::Agent, FieldSource::Package(PackageId(2))),
        root("behaviors", text_type(), FieldScope::Agent, FieldSource::Package(PackageId(3))),
        root("cursor", number_type(), FieldScope::Hidden, FieldSource::Package(PackageId(3))),
    ];
    expected.extend(base_fields());
    assert_eq!(schema.field_spec_map.field_specs, expected);
}

#[test]
fn the_context_schema_holds_the_context_fields() {
    let registry = registry();
    let creators = PackageCreators::from_config(&config(), &registry).expect("all are registered");
    let schema = creators.get_context_schema().expect("never fails");
    assert_eq!(
        schema.field_spec_map.field_specs,
        vec![root("neighbors", text_type(), FieldScope::Agent, FieldSource::Package(PackageId(2)))]
    );
}

#[test]
fn a_clash_among_init_packages_is_reported() {
    let registry = PackageRegistry {
        packages: vec![
            package(
                PackageType::Init,
                "one",
                1,
                vec![field("age", number_type(), FieldScope::Agent)],
                vec![],
            ),
            package(
                PackageType::Init,
                "two",
                2,
                vec![field("age", text_type(), FieldScope::Agent)],
                vec![],
            ),
        ],
    };
    let wanted = PackageConfig {
        init: names(&["one", "two"]),
        context: vec![],
        state: vec![],
        output: vec![],
    };
    let creators = PackageCreators::from_config(&wanted, &registry).expect("all are registered");
    assert_eq!(
        creators.get_agent_schema().err(),
        Some(Error::FieldKeyClash { name: "age".to_owned(), scope: FieldScope::Agent })
    );
}

#[test]
fn a_clash_among_state_packages_ends_their_declarations_silently() {
    let registry = PackageRegistry {
        packages: vec![
            package(
                PackageType::State,
                "one",
                1,
                vec![
                    field("age", number_type(), FieldScope::Agent),
                    field("age", text_type(), FieldScope::Agent),
                    field("never", number_type(), FieldScope::Agent),
                ],
                vec![],
            ),
            package(
                PackageType::State,
                "two",
                2,
                vec![field("skipped", number_type(), FieldScope::Agent)],
                vec![],
            ),
            package(
                PackageType::Output,
                "three",
                3,
                vec![field("kept", number_type(), FieldScope::Agent)],
                vec![],
            ),
        ],
    };
    let wanted = PackageConfig {
        init: vec![],
        context: vec![],
        state: names(&["one", "two"]),
        output: names(&["three"]),
    };
    let creators = PackageCreators::from_config(&wanted, &registry).expect("all are registered");
    let schema = creators.get_agent_schema().expect("the clash is not reported");
    let mut expected = vec![
        root("age", number_type(), FieldScope::Agent, FieldSource::Package(PackageId(1))),
        root("kept", number_type(), FieldScope::Agent, FieldSource::Package(PackageId(3))),
    ];
    expected.extend(base_fields());
    assert_eq!(schema.field_spec_map.field_specs, expected);
}

#[test]
fn a_clash_with_an_engine_field_is_reported() {
    let registry = PackageRegistry {
        packages: vec![package(
            PackageType::Output,
            "one",
            1,
            vec![field("position", number_type(), FieldScope::Agent)],
            vec![],
        )],
    };
    let wanted = PackageConfig {
        init: vec![],
        context: vec![],
        state: vec![],
        output: names(&["one"]),
    };
    let creators = PackageCreators::from_config(&wanted, &registry).expect("all are registered");
    assert_eq!(
        creators.get_agent_schema().err(),
        Some(Error::FieldKeyClash { name: "position".to_owned(), scope: FieldScope::Agent })
    );
}

#[test]
fn a_field_declared_again_with_its_type_stays_as_it_was() {
    let mut builder = FieldSpecMapBuilder::new();
    builder.source(FieldSource::Package(PackageId(1)));
    assert_eq!(builder.add_field_spec("age".to_owned(), number_type(), FieldScope::Agent), Ok(()));
    builder.source(FieldSource::Package(PackageId(2)));
    assert_eq!(builder.add_field_spec("age".to_owned(), number_type(), FieldScope::Agent), Ok(()));
    assert_eq!(
        builder.add_field_spec("age".to_owned(), number_type(), FieldScope::Private),
        Ok(())
    );
    assert_eq!(
        builder.add_field_spec("age".to_owned(), text_type(), FieldScope::Private),
        Err(Error::FieldKeyClash { name: "age".to_owned(), scope: FieldScope::Private })
    );
    assert_eq!(
        builder.build().field_specs,
        vec![
            root("age", number_type(), FieldScope::Agent, FieldSource::Package(PackageId(1))),
            root("age", number_type(), FieldScope::Private, FieldSource::Package(PackageId(2))),
        ]
    );
}

#[test]
fn hidden_fields_of_different_sources_do_not_clash() {
    let mut builder = FieldSpecMapBuilder::new();
    builder.source(FieldSource::Package(PackageId(1)));
    assert_eq!(builder.add_field_spec("x".to_owned(), number_type(), FieldScope::Hidden), Ok(()));
    builder.source(FieldSource::Engine);
    assert_eq!(builder.add_field_spec("x".to_owned(), text_type(), FieldScope::Hidden), Ok(()));
    assert_eq!(builder.build().field_specs.len(), 2);
}

#[test]
fn a_field_cannot_be_declared_without_a_source() {
    let mut builder = FieldSpecMapBuilder::new();
    assert_eq!(
        builder.add_field_spec("x".to_owned(), number_type(), FieldScope::Agent),
        Err(Error::MissingFieldSource)
    );
    assert_eq!(
        builder.add_field_specs(&vec![field("y", number_type(), FieldScope::Agent)]),
        Err(Error::MissingFieldSource)
    );
    assert_eq!(builder.add_field_specs(&vec![]), Ok(()));
    assert_eq!(builder.build().field_specs, vec![]);
}

#[test]
fn base_agent_fields_are_the_engines() {
    let mut builder = FieldSpecMapBuilder::new();
    assert_eq!(add_base_agent_fields(&mut builder), Ok(()));
    assert_eq!(builder.build().field_specs, base_fields());
    let mut builder = FieldSpecMapBuilder::new();
    assert_eq!(add_base_context_fields(&mut builder), Ok(()));
    assert_eq!(builder.add_field_spec("x".to_owned(), number_type(), FieldScope::Agent), Ok(()));
    assert_eq!(
        builder.build().field_specs,
        vec![root("x", number_type(), FieldScope::Agent, FieldSource::Engine)]
    );
    assert_eq!(PREVIOUS_INDEX_FIELD_NAME, "previous_index");
    assert_eq!(CONTEXT_INDEX_FIELD_NAME, "__context_index");
    assert_eq!(AgentStateField::RGB.name(), "rgb");
    assert_eq!(AgentStateField::Height.field_type(), FieldType::new(FieldTypeVariant::Number, true));
}

#[test]
fn field_types_are_compared_and_copied_in_depth() {
    let nested = |len| {
        FieldType::new(
            FieldTypeVariant::VariableLengthArray(Box::new(FieldType::new(
                FieldTypeVariant::FixedLengthArray { kind: Box::new(number_type()), len },
                false,
            ))),
            true,
        )
    };
    assert!(nested(2).same(&nested(2)));
    assert!(!nested(2).same(&nested(3)));
    assert!(!nested(2).same(&number_type()));
    assert!(!number_type().same(&FieldType::new(FieldTypeVariant::Number, true)));
    assert_eq!(nested(4).duplicate(), nested(4));
}

#[test]
fn errors_read_as_messages() {
    assert_eq!(
        Error::MissingCreator { package_type: PackageType::Init, name: "json".to_owned() }
            .message(),
        "Could not find init creator package: json"
    );
    assert_eq!(
        Error::MissingCreator { package_type: PackageType::Output, name: "x".to_owned() }.message(),
        "Could not find output creator package: x"
    );
    assert_eq!(
        Error::FieldKeyClash { name: "age".to_owned(), scope: FieldScope::Agent }.message(),
        "Field declared twice with different types: age"
    );
    assert_eq!(Error::MissingFieldSource.message(), "Field declared without a source");
    assert_eq!(PackageType::Context.name(), "context");
    assert_eq!(PackageType::State.name(), "state");
}

fn failure(name: &str) -> Error {
    Error::MissingCreator { package_type: PackageType::State, name: name.to_owned() }
}

#[test]
fn the_first_failure_of_a_run_is_its_outcome() {
    assert_eq!(first_failure(Vec::<Result<u8, Error>>::new()), Ok(vec![]));
    assert_eq!(first_failure(vec![Ok(1), Ok(2), Ok(3)]), Ok(vec![1, 2, 3]));
    assert_eq!(
        first_failure(vec![Ok(1), Err(failure("a")), Ok(3), Err(failure("b"))]),
        Err(failure("a"))
    );
    assert_eq!(first_failure(vec![Err::<u8, Error>(failure("c"))]), Err(failure("c")));
}

#[test]
fn packages_are_created_whole_or_not_at_all() {
    assert_eq!(
        create_packages(vec![Ok("i")], vec![Ok("c1"), Ok("c2")], vec![], vec![Ok("o")]),
        Ok(CreatedPackages {
            init: vec!["i"],
            context: vec!["c1", "c2"],
            state: vec![],
            output: vec!["o"]
        })
    );
    assert_eq!(
        create_packages(
            vec![Ok("i")],
            vec![Ok("c"), Err(failure("context"))],
            vec![Err(failure("state"))],
            vec![Ok("o")]
        ),
        Err(failure("context"))
    );
    assert_eq!(
        create_packages(
            vec![Err::<u8, Error>(failure("init"))],
            vec![Err(failure("context"))],
            vec![],
            vec![]
        ),
        Err(failure("init"))
    );
    assert_eq!(
        create_packages(vec![Ok(1)], vec![], vec![], vec![Ok(2), Err(failure("output"))]),
        Err(failure("output"))
    );
}

#[test]
fn persistence_is_made_of_what_the_output_creators_answer() {
    let registry = registry();
    let mut wanted = config();
    wanted.output = names(&["json_state", "analysis", "json_state"]);
    let creators = PackageCreators::from_config(&wanted, &registry).expect("all are registered");
    assert_eq!(
        creators.output_persistence_config_from(vec![
            Ok("first".to_owned()),
            Ok("second".to_owned()),
            Ok("third".to_owned()),
        ]),
        Ok(OutputPackagesSimConfig {
            map: vec![
                ("json_state".to_owned(), "third".to_owned()),
                ("analysis".to_owned(), "second".to_owned()),
            ]
        })
    );
    assert_eq!(
        creators.output_persistence_config_from(vec![
            Ok("first".to_owned()),
            Err(failure("analysis")),
            Err(failure("json_state")),
        ]),
        Err(failure("analysis"))
    );
    assert_eq!(
        creators.output_persistence_config_from(vec![Ok("only".to_owned())]),
        Ok(OutputPackagesSimConfig { map: vec![("json_state".to_owned(), "only".to_owned())] })
    );
    assert_eq!(
        creators.output_persistence_config_from(vec![]),
        Ok(OutputPackagesSimConfig { map: vec![] })
    );
}

#[test]
fn creators_are_asked_in_order_until_one_fails() {
    let registry = registry();
    let creators = PackageCreators::from_config(&config(), &registry).expect("all are registered");
    let packages = creators.new_init();
    let order = vec![
        setup(1, PackageType::Init),
        setup(2, PackageType::Context),
        setup(3, PackageType::State),
        setup(5, PackageType::Output),
        setup(4, PackageType::Output),
    ];
    for (answered, expected) in order.iter().enumerate() {
        assert_eq!(next_setup(&packages, answered, false), Some(*expected));
        assert_eq!(next_setup(&packages, answered, true), None);
    }
    assert_eq!(next_setup(&packages, 5, false), None);
    assert_eq!(next_setup(&packages, usize::MAX, false), None);
    assert_eq!(next_of(&packages.step.output, 0, false), Some(setup(5, PackageType::Output)));
    assert_eq!(next_of(&packages.step.output, 1, false), Some(setup(4, PackageType::Output)));
    assert_eq!(next_of(&packages.step.output, 2, false), None);
    assert_eq!(next_of(&packages.step.output, 0, true), None);
}
