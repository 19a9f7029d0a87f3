use hash_graph::api::{
    request_uuid, update_request, CreateFailure, EntityResource, EntityTypeResource, ListOrValue, Method,
    Operation, QueryFailure, Route, SchemaCheck, StatusCode, StatusKind,
};
use hash_graph::identifier::{BaseUri, VersionedUri};
use hash_graph::parameter::{Parameter, ParameterType};
use hash_graph::query::QueryError;
use hash_graph::store::{NewRecord, StoreError};
use hash_graph::wire::DeserializationError;

fn base(text: &str) -> BaseUri {
    BaseUri::new(text.to_owned()).unwrap()
}

fn valid(text: &str) -> SchemaCheck {
    SchemaCheck { parsed: Ok(base(text)), entity_type_id: format!("{}v/1", text), domain_valid: true }
}

#[test]
fn status_numbers() {
    assert_eq!(StatusCode::Success.as_u16(), 200);
    assert_eq!(StatusCode::BadRequest.as_u16(), 400);
    assert_eq!(StatusCode::NotFound.as_u16(), 404);
    assert_eq!(StatusCode::Conflict.as_u16(), 409);
    assert_eq!(StatusCode::UnprocessableEntity.as_u16(), 422);
    assert_eq!(StatusCode::Locked.as_u16(), 423);
    assert_eq!(StatusCode::InternalServerError.as_u16(), 500);
}

#[test]
fn entity_type_routes() {
    let routes = EntityTypeResource::routes();
    assert_eq!(routes.len(), 6);
    assert_eq!(
        routes[0],
        Route { method: Method::Post, path: "/entity-types/", operation: Operation::CreateEntityType }
    );
    assert_eq!(
        routes[5],
        Route {
            method: Method::Put,
            path: "/entity-types/unarchive",
            operation: Operation::UnarchiveEntityType
        }
    );
    assert!(routes.contains(&Route {
        method: Method::Post,
        path: "/entity-types/query",
        operation: Operation::GetEntityTypesByQuery
    }));
}

#[test]
fn entity_routes() {
    let routes = EntityResource::routes();
    assert_eq!(routes.len(), 6);
    assert!(routes.contains(&Route {
        method: Method::Get,
        path: "/entities/:entity_uuid",
        operation: Operation::GetEntity
    }));
    assert!(routes.contains(&Route {
        method: Method::Put,
        path: "/entities/",
        operation: Operation::UpdateEntity
    }));
}

#[test]
fn a_batch_of_valid_schemas_creates_its_records() {
    let outcome = EntityTypeResource::create_entity_type(vec![valid("a/"), valid("b/")], 7, 8);
    assert_eq!(
        outcome,
        Ok(vec![
            NewRecord { base_uri: base("a/"), owned_by: 7, actor: 8 },
            NewRecord { base_uri: base("b/"), owned_by: 7, actor: 8 },
        ])
    );
    assert_eq!(EntityTypeResource::create_entity_type(vec![], 7, 8), Ok(vec![]));
}

#[test]
fn the_first_failing_schema_fails_the_batch() {
    let invalid = SchemaCheck {
        parsed: Err("missing title".to_owned()),
        entity_type_id: String::new(),
        domain_valid: false,
    };
    let foreign = SchemaCheck {
        parsed: Ok(base("https://elsewhere.org/t/")),
        entity_type_id: "https://elsewhere.org/t/v/1".to_owned(),
        domain_valid: false,
    };
    assert_eq!(
        EntityTypeResource::create_entity_type(vec![valid("a/"), foreign, invalid], 7, 8),
        Err(CreateFailure::InvalidTypeId {
            entity_type_id: "https://elsewhere.org/t/v/1".to_owned()
        })
    );
    let invalid = SchemaCheck {
        parsed: Err("missing title".to_owned()),
        entity_type_id: String::new(),
        domain_valid: true,
    };
    assert_eq!(
        EntityTypeResource::create_entity_type(vec![invalid, valid("a/")], 7, 8),
        Err(CreateFailure::InvalidSchema { validation_error: "missing title".to_owned() })
    );
}

#[test]
fn creation_failures_are_reported() {
    let status = EntityTypeResource::create_failure_status(CreateFailure::StoreAcquisition);
    assert_eq!(status.code, StatusKind::Internal);
    assert_eq!(status.reason, "STORE_ACQUISITION_FAILURE");
    assert_eq!(status.detail, None);
    assert!(status.message.starts_with("Could not acquire store."));

    let status = EntityTypeResource::create_failure_status(CreateFailure::InvalidSchema {
        validation_error: "missing title".to_owned(),
    });
    assert_eq!(status.code, StatusKind::InvalidArgument);
    assert_eq!(status.reason, "INVALID_SCHEMA");
    assert_eq!(status.message, "Provided schema wasn't a valid entity type.");
    assert_eq!(status.detail, Some(("validationError", "missing title".to_owned())));

    let status = EntityTypeResource::create_failure_status(CreateFailure::InvalidTypeId {
        entity_type_id: "x/v/1".to_owned(),
    });
    assert_eq!(status.code, StatusKind::InvalidArgument);
    assert_eq!(status.reason, "INVALID_TYPE_ID");
    assert_eq!(status.detail, Some(("entityTypeId", "x/v/1".to_owned())));

    let status = EntityTypeResource::create_failure_status(CreateFailure::Store(
        StoreError::IdentityConflict(base("https://example.com/x/")),
    ));
    assert_eq!(status.code, StatusKind::AlreadyExists);
    assert_eq!(status.reason, "BASE_URI_ALREADY_EXISTS");
    assert_eq!(status.detail, Some(("baseUrl", "https://example.com/x/".to_owned())));

    for error in [StoreError::NotFound, StoreError::RaceCondition, StoreError::Internal] {
        let status = EntityTypeResource::create_failure_status(CreateFailure::Store(error));
        assert_eq!(status.code, StatusKind::Internal);
        assert_eq!(status.reason, "INTERNAL");
        assert_eq!(status.detail, None);
    }
}

#[test]
fn creation_answers_in_the_shape_of_the_request() {
    assert_eq!(
        EntityTypeResource::create_response(true, vec![1, 2]),
        Some(ListOrValue::List(vec![1, 2]))
    );
    assert_eq!(
        EntityTypeResource::create_response(true, Vec::<u8>::new()),
        Some(ListOrValue::List(vec![]))
    );
    assert_eq!(EntityTypeResource::create_response(false, vec![1, 2]), Some(ListOrValue::Value(2)));
    assert_eq!(EntityTypeResource::create_response(false, Vec::<u8>::new()), None);
}

#[test]
fn only_a_conflict_is_reported_as_existing_when_a_type_is_loaded() {
    let status = EntityTypeResource::load_external_entity_type(true);
    assert_eq!(status.code, StatusKind::AlreadyExists);
    assert_eq!(status.message, "Provided schema entity type does already exist.");
    assert_eq!(status.detail, None);
    let status = EntityTypeResource::load_external_entity_type(false);
    assert_eq!(status.code, StatusKind::Internal);
    assert_eq!(status.message, "Unknown error occurred when loading external entity type.");
    assert_eq!(status.detail, None);
}

#[test]
fn classes_of_failure_have_their_http_status() {
    assert_eq!(StatusKind::Internal.http_status(), StatusCode::InternalServerError);
    assert_eq!(StatusKind::InvalidArgument.http_status(), StatusCode::BadRequest);
    assert_eq!(StatusKind::AlreadyExists.http_status(), StatusCode::Conflict);
}

fn conversion_failure() -> QueryError {
    let mut parameter = Parameter::Text("yes".to_owned());
    QueryError::Validation(
        parameter.convert_to_parameter_type(ParameterType::Boolean).unwrap_err(),
    )
}

#[test]
fn a_refused_query_is_told_apart_from_a_failure_inside() {
    let refused = vec![
        QueryFailure::Refused(QueryError::Deserialization(DeserializationError)),
        QueryFailure::Refused(conversion_failure()),
    ];
    for failure in refused {
        assert_eq!(
            EntityTypeResource::get_entity_types_by_query(&failure),
            StatusCode::UnprocessableEntity
        );
        assert_eq!(
            EntityResource::get_entities_by_query(&failure),
            StatusCode::UnprocessableEntity
        );
    }
    let inside = vec![
        QueryFailure::StoreAcquisition,
        QueryFailure::Store(StoreError::Internal),
        QueryFailure::Store(StoreError::RaceCondition),
        QueryFailure::Store(StoreError::AlreadyInState),
        QueryFailure::Store(StoreError::IdentityConflict(base("a/"))),
    ];
    for failure in inside {
        assert_eq!(
            EntityTypeResource::get_entity_types_by_query(&failure),
            StatusCode::InternalServerError
        );
        assert_eq!(
            EntityResource::get_entities_by_query(&failure),
            StatusCode::InternalServerError
        );
    }
    let missing = QueryFailure::Store(StoreError::NotFound);
    assert_eq!(EntityTypeResource::get_entity_types_by_query(&missing), StatusCode::NotFound);
    assert_eq!(EntityResource::get_entities_by_query(&missing), StatusCode::NotFound);
}

#[test]
fn a_request_that_names_no_revision_is_unprocessable() {
    assert_eq!(
        update_request("https://example.com/a/".to_owned(), 3),
        Ok(VersionedUri::new(base("https://example.com/a/"), 3))
    );
    assert_eq!(
        update_request("https://example.com/a".to_owned(), 3),
        Err(StatusCode::UnprocessableEntity)
    );
    assert_eq!(update_request(String::new(), 1), Err(StatusCode::UnprocessableEntity));
}

#[test]
fn an_update_creates_the_next_revision_of_the_same_record() {
    let prior = VersionedUri::new(base("a/"), 4);
    assert_eq!(
        EntityTypeResource::next_revision(&prior, true),
        Ok(VersionedUri::new(base("a/"), 5))
    );
    assert_eq!(
        EntityTypeResource::next_revision(&prior, false),
        Err(StatusCode::UnprocessableEntity)
    );
    let last = VersionedUri::new(base("a/"), u32::MAX);
    assert_eq!(
        EntityTypeResource::next_revision(&last, true),
        Err(StatusCode::UnprocessableEntity)
    );
    assert_eq!(prior.next(), Some(VersionedUri::new(base("a/"), 5)));
    assert_eq!(last.next(), None);
}

#[test]
fn entity_type_failures_map_to_statuses() {
    assert_eq!(EntityTypeResource::update_entity_type(&StoreError::NotFound), StatusCode::NotFound);
    assert_eq!(
        EntityTypeResource::update_entity_type(&StoreError::RaceCondition),
        StatusCode::InternalServerError
    );
    assert_eq!(EntityTypeResource::archive_entity_type(&StoreError::NotFound), StatusCode::NotFound);
    assert_eq!(
        EntityTypeResource::archive_entity_type(&StoreError::AlreadyInState),
        StatusCode::Conflict
    );
    assert_eq!(
        EntityTypeResource::archive_entity_type(&StoreError::Internal),
        StatusCode::InternalServerError
    );
    assert_eq!(
        EntityTypeResource::unarchive_entity_type(&StoreError::AlreadyInState),
        StatusCode::Conflict
    );
    assert_eq!(
        EntityTypeResource::unarchive_entity_type(&StoreError::IdentityConflict(base("a/"))),
        StatusCode::Conflict
    );
    assert_eq!(
        EntityTypeResource::unarchive_entity_type(&StoreError::NotFound),
        StatusCode::NotFound
    );
}

#[test]
fn entity_failures_map_to_statuses() {
    assert_eq!(EntityResource::update_entity(&StoreError::NotFound), StatusCode::NotFound);
    assert_eq!(EntityResource::update_entity(&StoreError::RaceCondition), StatusCode::Locked);
    assert_eq!(
        EntityResource::update_entity(&StoreError::AlreadyInState),
        StatusCode::InternalServerError
    );
    assert_eq!(EntityResource::create_entity(&StoreError::NotFound), StatusCode::InternalServerError);
    assert_eq!(EntityResource::archive_entity(false, None), StatusCode::NotFound);
    assert_eq!(
        EntityResource::archive_entity(true, Some(&StoreError::RaceCondition)),
        StatusCode::InternalServerError
    );
    assert_eq!(EntityResource::archive_entity(true, None), StatusCode::Success);
    assert_eq!(EntityResource::get_entity(vec![1, 2, 3]), Ok(3));
    assert_eq!(EntityResource::get_entity(Vec::<u8>::new()), Err(StatusCode::NotFound));
}

#[test]
fn a_request_that_names_no_uuid_is_unprocessable() {
    assert_eq!(
        request_uuid("550e8400-e29b-41d4-a716-446655440000"),
        Ok(0x550e8400_e29b_41d4_a716_446655440000)
    );
    assert_eq!(request_uuid(""), Err(StatusCode::UnprocessableEntity));
    assert_eq!(request_uuid("nobody"), Err(StatusCode::UnprocessableEntity));
}
