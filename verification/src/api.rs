//! What the request handlers decide: which routes there are, which records a
//! batch creates, and how each failure is reported to the caller.
//!
//! The handlers themselves wait for the store and speak HTTP; they are not
//! part of this library. They hand the outcomes here and send what comes
//! back.

use crate::identifier::{BaseUri, VersionedUri, VersionedUriModel};
use crate::parameter::{parse_uuid, uuid_from_text};
use crate::query::{QueryError, QueryErrorModel};
use crate::store::{new_records, NewRecord, NewRecordModel, StoreError, StoreErrorModel};
use vstd::prelude::*;

verus! {

/// The HTTP status of a response.
#[derive(Clone, Copy, Debug, PartialEq, Eq, Structural)]
pub enum StatusCode {
    Success,
    BadRequest,
    NotFound,
    Conflict,
    UnprocessableEntity,
    Locked,
    InternalServerError,
}

impl StatusCode {
    pub open spec fn code(self) -> u16 {
        match self {
            StatusCode::Success => 200,
            StatusCode::BadRequest => 400,
            StatusCode::NotFound => 404,
            StatusCode::Conflict => 409,
            StatusCode::UnprocessableEntity => 422,
            StatusCode::Locked => 423,
            StatusCode::InternalServerError => 500,
        }
    }

    /// The number of the status.
    pub fn as_u16(&self) -> (code: u16)
        ensures
            code == self.code(),
    {
        match self {
            StatusCode::Success => 200,
            StatusCode::BadRequest => 400,
            StatusCode::NotFound => 404,
            StatusCode::Conflict => 409,
            StatusCode::UnprocessableEntity => 422,
            StatusCode::Locked => 423,
            StatusCode::InternalServerError => 500,
        }
    }
}

/// The method of a request.
#[derive(Clone, Copy, Debug, PartialEq, Eq, Structural)]
pub enum Method {
    Get,
    Post,
    Put,
}

/// What a request asks for.
#[derive(Clone, Copy, Debug, PartialEq, Eq, Structural)]
pub enum Operation {
    CreateEntityType,
    LoadExternalEntityType,
    GetEntityTypesByQuery,
    UpdateEntityType,
    ArchiveEntityType,
    UnarchiveEntityType,
    CreateEntity,
    GetLatestEntities,
    UpdateEntity,
    ArchiveEntity,
    GetEntitiesByQuery,
    GetEntity,
}

/// A route: the requests of a method to a path ask for an operation.
#[derive(Clone, Copy, Debug, PartialEq, Eq)]
pub struct Route {
    pub method: Method,
    pub path: &'static str,
    pub operation: Operation,
}

/// A route, as a mathematical value.
pub struct RouteModel {
    pub method: Method,
    pub path: Seq<char>,
    pub operation: Operation,
}

impl View for Route {
    type V = RouteModel;

    open spec fn view(&self) -> RouteModel {
        RouteModel { method: self.method, path: self.path@, operation: self.operation }
    }
}

/// The models of a list of routes.
pub open spec fn route_models(routes: Seq<Route>) -> Seq<RouteModel> {
    Seq::new(routes.len(), |i: int| routes[i]@)
}

/// The class of a failure, apart from HTTP.
#[derive(Clone, Copy, Debug, PartialEq, Eq, Structural)]
pub enum StatusKind {
    Internal,
    InvalidArgument,
    AlreadyExists,
}

impl StatusKind {
    /// The HTTP status under which a failure of the class is sent.
    pub open spec fn status(self) -> StatusCode {
        match self {
            StatusKind::Internal => StatusCode::InternalServerError,
            StatusKind::InvalidArgument => StatusCode::BadRequest,
            StatusKind::AlreadyExists => StatusCode::Conflict,
        }
    }

    /// The HTTP status under which a failure of the class is sent.
    pub fn http_status(&self) -> (status: StatusCode)
        ensures
            status == self.status(),
    {
        match self {
            StatusKind::Internal => StatusCode::InternalServerError,
            StatusKind::InvalidArgument => StatusCode::BadRequest,
            StatusKind::AlreadyExists => StatusCode::Conflict,
        }
    }
}

/// The report of a failure: its class, a message for the caller, a word
/// that names the reason, and where there is one a detail under a key.
#[derive(Debug, PartialEq, Eq)]
pub struct Status {
    pub code: StatusKind,
    pub message: &'static str,
    pub reason: &'static str,
    pub detail: Option<(&'static str, String)>,
}

/// The report of a failure, as a mathematical value.
pub struct StatusModel {
    pub code: StatusKind,
    pub message: Seq<char>,
    pub reason: Seq<char>,
    pub detail: Option<(Seq<char>, Seq<char>)>,
}

impl View for Status {
    type V = StatusModel;

    open spec fn view(&self) -> StatusModel {
        StatusModel {
            code: self.code,
            message: self.message@,
            reason: self.reason@,
            detail: match self.detail {
                Some((key, value)) => Some((key@, value@)),
                None => None,
            },
        }
    }
}

/// Why the creation of entity types failed.
#[derive(Debug, PartialEq, Eq)]
pub enum CreateFailure {
    /// No connection to the store could be had.
    StoreAcquisition,
    /// A schema of the batch is no entity type.
    InvalidSchema { validation_error: String },
    /// The identifier of a type lies outside the domain of this service.
    InvalidTypeId { entity_type_id: String },
    /// The store refused the batch.
    Store(StoreError),
}

/// Why the creation of entity types failed, as a mathematical value.
pub enum CreateFailureModel {
    StoreAcquisition,
    InvalidSchema { validation_error: Seq<char> },
    InvalidTypeId { entity_type_id: Seq<char> },
    Store(StoreErrorModel),
}

impl View for CreateFailure {
    type V = CreateFailureModel;

    open spec fn view(&self) -> CreateFailureModel {
        match self {
            CreateFailure::StoreAcquisition => CreateFailureModel::StoreAcquisition,
            CreateFailure::InvalidSchema { validation_error } => CreateFailureModel::InvalidSchema {
                validation_error: validation_error@,
            },
            CreateFailure::InvalidTypeId { entity_type_id } => CreateFailureModel::InvalidTypeId {
                entity_type_id: entity_type_id@,
            },
            CreateFailure::Store(error) => CreateFailureModel::Store(error@),
        }
    }
}

pub const ACQUISITION_MESSAGE: &'static str =
    "Could not acquire store. This is an internal error, please report to the developers of the HASH Graph with whatever information you can provide including request details and logs.";

pub const SCHEMA_MESSAGE: &'static str = "Provided schema wasn't a valid entity type.";

pub const TYPE_ID_MESSAGE: &'static str =
    "Entity Type ID failed to validate against the given domain regex. Are you sure the service is able to host a type under the domain you supplied?";

pub const EXISTS_MESSAGE: &'static str =
    "Could not create entity type as the base URI already existed, perhaps you intended to call `updateEntityType` instead?";

pub const INTERNAL_MESSAGE: &'static str =
    "Internal error, please report to the developers of the HASH Graph with whatever information you can provide including request details and logs.";

pub const LOADED_MESSAGE: &'static str = "Provided schema entity type does already exist.";

pub const UNKNOWN_MESSAGE: &'static str =
    "Unknown error occurred when loading external entity type.";

/// How a failure to create entity types is reported.
///
/// A failure to reach the store and a refusal by the store for any reason
/// but a taken identifier are internal. A schema that is no entity type and
/// an identifier outside the domain are faults of the argument, and carry
/// what was wrong. A taken identifier is reported as such and carries the
/// identifier.
pub open spec fn create_status(failure: CreateFailureModel) -> StatusModel {
    match failure {
        CreateFailureModel::StoreAcquisition => StatusModel {
            code: StatusKind::Internal,
            message: ACQUISITION_MESSAGE@,
            reason: "STORE_ACQUISITION_FAILURE"@,
            detail: None,
        },
        CreateFailureModel::InvalidSchema { validation_error } => StatusModel {
            code: StatusKind::InvalidArgument,
            message: SCHEMA_MESSAGE@,
            reason: "INVALID_SCHEMA"@,
            detail: Some(("validationError"@, validation_error)),
        },
        CreateFailureModel::InvalidTypeId { entity_type_id } => StatusModel {
            code: StatusKind::InvalidArgument,
            message: TYPE_ID_MESSAGE@,
            reason: "INVALID_TYPE_ID"@,
            detail: Some(("entityTypeId"@, entity_type_id)),
        },
        CreateFailureModel::Store(StoreErrorModel::IdentityConflict(base_uri)) => StatusModel {
            code: StatusKind::AlreadyExists,
            message: EXISTS_MESSAGE@,
            reason: "BASE_URI_ALREADY_EXISTS"@,
            detail: Some(("baseUrl"@, base_uri)),
        },
        CreateFailureModel::Store(_) => StatusModel {
            code: StatusKind::Internal,
            message: INTERNAL_MESSAGE@,
            reason: "INTERNAL"@,
            detail: None,
        },
    }
}

/// How a failure to load an entity type from elsewhere is reported: a
/// conflict as a type that exists already, every other failure as internal.
pub open spec fn load_status(conflict: bool) -> StatusModel {
    if conflict {
        StatusModel {
            code: StatusKind::AlreadyExists,
            message: LOADED_MESSAGE@,
            reason: ""@,
            detail: None,
        }
    } else {
        StatusModel {
            code: StatusKind::Internal,
            message: UNKNOWN_MESSAGE@,
            reason: ""@,
            detail: None,
        }
    }
}

/// Why a query gave no subgraph.
#[derive(Debug, PartialEq)]
pub enum QueryFailure {
    /// No connection to the store could be had.
    StoreAcquisition,
    /// The query was refused before the store was asked.
    Refused(QueryError),
    /// The store failed to answer.
    Store(StoreError),
}

/// Why a query gave no subgraph, as a mathematical value.
pub enum QueryFailureModel {
    StoreAcquisition,
    Refused(QueryErrorModel),
    Store(StoreErrorModel),
}

impl View for QueryFailure {
    type V = QueryFailureModel;

    open spec fn view(&self) -> QueryFailureModel {
        match self {
            QueryFailure::StoreAcquisition => QueryFailureModel::StoreAcquisition,
            QueryFailure::Refused(error) => QueryFailureModel::Refused(error@),
            QueryFailure::Store(error) => QueryFailureModel::Store(error@),
        }
    }
}

/// The status of a query that gave no subgraph. A query that was refused,
/// for its shape or for a parameter that cannot be coerced, is the
/// caller's fault and is told apart from every failure inside: it is
/// unprocessable. A record that the store does not find is not found.
/// Everything else, a failure to reach the store among it, is an internal
/// error.
pub open spec fn query_status(failure: QueryFailureModel) -> StatusCode {
    match failure {
        QueryFailureModel::Refused(_) => StatusCode::UnprocessableEntity,
        QueryFailureModel::Store(StoreErrorModel::NotFound) => StatusCode::NotFound,
        _ => StatusCode::InternalServerError,
    }
}

fn query_status_of(failure: &QueryFailure) -> (status: StatusCode)
    ensures
        status == query_status(failure@),
{
    match failure {
        QueryFailure::Refused(_) => StatusCode::UnprocessableEntity,
        QueryFailure::Store(StoreError::NotFound) => StatusCode::NotFound,
        _ => StatusCode::InternalServerError,
    }
}

/// The UUID that a request names as an account, an actor or an entity.
///
/// A text that spells no UUID cannot be read and is refused as
/// unprocessable, before the store is asked for anything.
pub fn request_uuid(text: &str) -> (outcome: Result<u128, StatusCode>)
    ensures
        match uuid_from_text(text@) {
            Some(uuid) => outcome == Ok::<u128, StatusCode>(uuid),
            None => outcome == Err::<u128, StatusCode>(StatusCode::UnprocessableEntity),
        },
{
    match parse_uuid(text) {
        Some(uuid) => Ok(uuid),
        None => Err(StatusCode::UnprocessableEntity),
    }
}

/// The revision that a request to update, archive or unarchive names.
///
/// A request whose base identifier is none cannot be read and is refused as
/// unprocessable. That is decided before the store is asked for anything.
pub fn update_request(base_uri: String, version: u32) -> (outcome: Result<VersionedUri, StatusCode>)
    ensures
        BaseUri::valid(base_uri@) ==> outcome is Ok && outcome->Ok_0@ == (VersionedUriModel {
            base_uri: base_uri@,
            version,
        }),
        !BaseUri::valid(base_uri@) ==> outcome == Err::<VersionedUri, StatusCode>(
            StatusCode::UnprocessableEntity,
        ),
{
    match BaseUri::new(base_uri) {
        Ok(base_uri) => Ok(VersionedUri::new(base_uri, version)),
        Err(_) => Err(StatusCode::UnprocessableEntity),
    }
}

/// What the check of one schema of a batch found: the base identifier of
/// the type it describes, or why it describes none, and whether the
/// identifier lies in the domain of this service.
#[derive(Debug, PartialEq, Eq)]
pub struct SchemaCheck {
    pub parsed: Result<BaseUri, String>,
    pub entity_type_id: String,
    pub domain_valid: bool,
}

/// The check of one schema, as a mathematical value.
pub struct SchemaCheckModel {
    pub parsed: Result<Seq<char>, Seq<char>>,
    pub entity_type_id: Seq<char>,
    pub domain_valid: bool,
}

impl View for SchemaCheck {
    type V = SchemaCheckModel;

    open spec fn view(&self) -> SchemaCheckModel {
        SchemaCheckModel {
            parsed: match self.parsed {
                Ok(base_uri) => Ok(base_uri@),
                Err(error) => Err(error@),
            },
            entity_type_id: self.entity_type_id@,
            domain_valid: self.domain_valid,
        }
    }
}

/// The models of a list of checks.
pub open spec fn check_models(checks: Seq<SchemaCheck>) -> Seq<SchemaCheckModel> {
    Seq::new(checks.len(), |i: int| checks[i]@)
}

/// The record that one schema of a batch creates, or why the batch fails
/// with it.
pub open spec fn checked(check: SchemaCheckModel, owned_by: u128, actor: u128) -> Result<
    NewRecordModel,
    CreateFailureModel,
> {
    match check.parsed {
        Err(validation_error) => Err(CreateFailureModel::InvalidSchema { validation_error }),
        Ok(base_uri) => if check.domain_valid {
            Ok(NewRecordModel { base_uri, owned_by, actor })
        } else {
            Err(CreateFailureModel::InvalidTypeId { entity_type_id: check.entity_type_id })
        },
    }
}

/// The records that a batch creates, or the failure of the first schema that
/// fails its check. Either every schema passes or the batch creates nothing.
pub open spec fn checked_batch(checks: Seq<SchemaCheckModel>, owned_by: u128, actor: u128) -> Result<
    Seq<NewRecordModel>,
    CreateFailureModel,
>
    decreases checks.len(),
{
    if checks.len() == 0 {
        Ok(Seq::empty())
    } else {
        match checked_batch(checks.drop_last(), owned_by, actor) {
            Err(failure) => Err(failure),
            Ok(records) => match checked(checks.last(), owned_by, actor) {
                Err(failure) => Err(failure),
                Ok(record) => Ok(records.push(record)),
            },
        }
    }
}

/// Once the first schemas of a batch fail their check, the batch does.
pub proof fn lemma_checked_batch_stops(
    checks: Seq<SchemaCheckModel>,
    owned_by: u128,
    actor: u128,
    prefix: int,
)
    requires
        0 <= prefix <= checks.len(),
        checked_batch(checks.take(prefix), owned_by, actor) is Err,
    ensures
        checked_batch(checks, owned_by, actor) == checked_batch(
            checks.take(prefix),
            owned_by,
            actor,
        ),
    decreases checks.len(),
{
    if prefix == checks.len() {
        assert(checks.take(prefix) =~= checks);
    } else {
        assert(checks.drop_last().take(prefix) =~= checks.take(prefix));
        lemma_checked_batch_stops(checks.drop_last(), owned_by, actor, prefix);
    }
}

/// One value, or a list of values.
#[derive(Debug, PartialEq, Eq)]
pub enum ListOrValue<T> {
    List(Vec<T>),
    Value(T),
}

/// The routes of the entity types.
pub struct EntityTypeResource;

/// The routes of the entities.
pub struct EntityResource;

impl EntityTypeResource {
    /// The routes of the entity types.
    pub open spec fn route_table() -> Seq<RouteModel> {
        seq![
            RouteModel {
                method: Method::Post,
                path: "/entity-types/"@,
                operation: Operation::CreateEntityType,
            },
            RouteModel {
                method: Method::Put,
                path: "/entity-types/"@,
                operation: Operation::UpdateEntityType,
            },
            RouteModel {
                method: Method::Post,
                path: "/entity-types/query"@,
                operation: Operation::GetEntityTypesByQuery,
            },
            RouteModel {
                method: Method::Post,
                path: "/entity-types/load"@,
                operation: Operation::LoadExternalEntityType,
            },
            RouteModel {
                method: Method::Put,
                path: "/entity-types/archive"@,
                operation: Operation::ArchiveEntityType,
            },
            RouteModel {
                method: Method::Put,
                path: "/entity-types/unarchive"@,
                operation: Operation::UnarchiveEntityType,
            },
        ]
    }

    /// The routes of the entity types.
    pub fn routes() -> (routes: Vec<Route>)
        ensures
            route_models(routes@) == Self::route_table(),
    {
        let mut routes: Vec<Route> = Vec::new();
        routes.push(
            Route {
                method: Method::Post,
                path: "/entity-types/",
                operation: Operation::CreateEntityType,
            },
        );
        routes.push(
            Route {
                method: Method::Put,
                path: "/entity-types/",
                operation: Operation::UpdateEntityType,
            },
        );
        routes.push(
            Route {
                method: Method::Post,
                path: "/entity-types/query",
                operation: Operation::GetEntityTypesByQuery,
            },
        );
        routes.push(
            Route {
                method: Method::Post,
                path: "/entity-types/load",
                operation: Operation::LoadExternalEntityType,
            },
        );
        routes.push(
            Route {
                method: Method::Put,
                path: "/entity-types/archive",
                operation: Operation::ArchiveEntityType,
            },
        );
        routes.push(
            Route {
                method: Method::Put,
                path: "/entity-types/unarchive",
                operation: Operation::UnarchiveEntityType,
            },
        );
        assert(route_models(routes@) =~= Self::route_table());
        routes
    }

    /// The records that a batch of schemas creates, all owned by `owned_by`
    /// and created by `actor`.
    ///
    /// The schemas are checked in order and the first that fails its check
    /// fails the batch, before anything is asked of the store.
    pub fn create_entity_type(checks: Vec<SchemaCheck>, owned_by: u128, actor: u128) -> (outcome:
        Result<Vec<NewRecord>, CreateFailure>)
        ensures
            match checked_batch(check_models(checks@), owned_by, actor) {
                Ok(records) => outcome is Ok && new_records(outcome->Ok_0@)
                    == records,
                Err(failure) => outcome is Err && outcome->Err_0@ == failure,
            },
    {
        let ghost all = check_models(checks@);
        let mut records: Vec<NewRecord> = Vec::new();
        proof {
            assert(all.take(0) =~= Seq::empty());
            assert(new_records(records@) =~= Seq::empty());
        }
        for check in iter: checks
            invariant
                iter.seq() == checks@,
                all == check_models(checks@),
                records.len() == iter.index(),
                checked_batch(all.take(iter.index() as int), owned_by, actor) == Ok::<
                    Seq<NewRecordModel>,
                    CreateFailureModel,
                >(new_records(records@)),
        {
            let ghost index = iter.index() as int;
            let ghost earlier = new_records(records@);
            proof {
                assert(all.take(index + 1).drop_last() =~= all.take(index));
                assert(all.take(index + 1).last() == check@);
            }
            let SchemaCheck { parsed, entity_type_id, domain_valid } = check;
            match parsed {
                Ok(base_uri) if domain_valid => {
                    let record = NewRecord { base_uri, owned_by, actor };
                    records.push(record);
                    assert(new_records(records@) =~= earlier.push(record@));
                },
                Ok(_) => {
                    proof {
                        lemma_checked_batch_stops(all, owned_by, actor, index + 1);
                    }
                    return Err(CreateFailure::InvalidTypeId { entity_type_id });
                },
                Err(validation_error) => {
                    proof {
                        lemma_checked_batch_stops(all, owned_by, actor, index + 1);
                    }
                    return Err(CreateFailure::InvalidSchema { validation_error });
                },
            }
        }
        proof {
            assert(all.take(checks.len() as int) =~= all);
        }
        Ok(records)
    }

    /// How a failure to create entity types is reported.
    pub fn create_failure_status(failure: CreateFailure) -> (status: Status)
        ensures
            status@ == create_status(failure@),
    {
        match failure {
            CreateFailure::StoreAcquisition => Status {
                code: StatusKind::Internal,
                message: ACQUISITION_MESSAGE,
                reason: "STORE_ACQUISITION_FAILURE",
                detail: None,
            },
            CreateFailure::InvalidSchema { validation_error } => Status {
                code: StatusKind::InvalidArgument,
                message: SCHEMA_MESSAGE,
                reason: "INVALID_SCHEMA",
                detail: Some(("validationError", validation_error)),
            },
            CreateFailure::InvalidTypeId { entity_type_id } => Status {
                code: StatusKind::InvalidArgument,
                message: TYPE_ID_MESSAGE,
                reason: "INVALID_TYPE_ID",
                detail: Some(("entityTypeId", entity_type_id)),
            },
            CreateFailure::Store(StoreError::IdentityConflict(base_uri)) => Status {
                code: StatusKind::AlreadyExists,
                message: EXISTS_MESSAGE,
                reason: "BASE_URI_ALREADY_EXISTS",
                detail: Some(("baseUrl", base_uri.as_str().to_owned())),
            },
            CreateFailure::Store(_) => Status {
                code: StatusKind::Internal,
                message: INTERNAL_MESSAGE,
                reason: "INTERNAL",
                detail: None,
            },
        }
    }

    /// What is sent back after a creation: the list of what was created
    /// where a list was sent, else the one thing that was created. Where one
    /// thing was sent and nothing was created there is nothing to send.
    pub fn create_response<T>(is_list: bool, metadata: Vec<T>) -> (response: Option<ListOrValue<T>>)
        ensures
            is_list ==> response == Some(ListOrValue::List(metadata)),
            !is_list && metadata.len() > 0 ==> response == Some(
                ListOrValue::Value(metadata@.last()),
            ),
            !is_list && metadata.len() == 0 ==> response is None,
    {
        if is_list {
            Some(ListOrValue::List(metadata))
        } else {
            let mut metadata = metadata;
            match metadata.pop() {
                Some(value) => Some(ListOrValue::Value(value)),
                None => None,
            }
        }
    }

    /// How a failure to load an entity type from elsewhere is reported: a
    /// conflict as a type that exists already, every other failure as
    /// internal.
    pub fn load_external_entity_type(conflict: bool) -> (status: Status)
        ensures
            status@ == load_status(conflict),
    {
        if conflict {
            Status {
                code: StatusKind::AlreadyExists,
                message: LOADED_MESSAGE,
                reason: "",
                detail: None,
            }
        } else {
            Status { code: StatusKind::Internal, message: UNKNOWN_MESSAGE, reason: "", detail: None }
        }
    }

    /// The status of a query for entity types that gave no subgraph.
    pub fn get_entity_types_by_query(failure: &QueryFailure) -> (status: StatusCode)
        ensures
            status == query_status(failure@),
    {
        query_status_of(failure)
    }

    /// The revision that an update of an entity type is to create: the one
    /// that follows `prior`, of the same record.
    ///
    /// `schema_parses` says whether the new schema is an entity type once
    /// the identifier of that revision has been put into it. Where it is
    /// not, or where no revision can follow `prior`, the request is
    /// unprocessable and the store is not asked.
    pub fn next_revision(prior: &VersionedUri, schema_parses: bool) -> (outcome: Result<
        VersionedUri,
        StatusCode,
    >)
        ensures
            schema_parses && prior@.version < u32::MAX ==> outcome is Ok && outcome->Ok_0@
                == (VersionedUriModel {
                base_uri: prior@.base_uri,
                version: (prior@.version + 1) as u32,
            }),
            !(schema_parses && prior@.version < u32::MAX) ==> outcome == Err::<
                VersionedUri,
                StatusCode,
            >(StatusCode::UnprocessableEntity),
    {
        if !schema_parses {
            return Err(StatusCode::UnprocessableEntity);
        }
        match prior.next() {
            Some(next) => Ok(next),
            None => Err(StatusCode::UnprocessableEntity),
        }
    }

    /// The status of an update that the store refused: not found where the
    /// type to update does not exist, else an internal error.
    pub fn update_entity_type(error: &StoreError) -> (status: StatusCode)
        ensures
            status == match error@ {
                StoreErrorModel::NotFound => StatusCode::NotFound,
                _ => StatusCode::InternalServerError,
            },
    {
        match error {
            StoreError::NotFound => StatusCode::NotFound,
            _ => StatusCode::InternalServerError,
        }
    }

    /// The status of an archiving that the store refused: not found where
    /// the type does not exist, a conflict where it is archived already,
    /// else an internal error.
    pub fn archive_entity_type(error: &StoreError) -> (status: StatusCode)
        ensures
            status == archive_status(error@),
    {
        archive_status_of(error)
    }

    /// The status of an unarchiving that the store refused: not found where
    /// the type does not exist, a conflict where it is not archived, else an
    /// internal error.
    pub fn unarchive_entity_type(error: &StoreError) -> (status: StatusCode)
        ensures
            status == archive_status(error@),
    {
        archive_status_of(error)
    }
}

/// The status of an archiving or unarchiving that the store refused.
pub open spec fn archive_status(error: StoreErrorModel) -> StatusCode {
    match error {
        StoreErrorModel::NotFound => StatusCode::NotFound,
        StoreErrorModel::AlreadyInState => StatusCode::Conflict,
        StoreErrorModel::IdentityConflict(_) => StatusCode::Conflict,
        _ => StatusCode::InternalServerError,
    }
}

fn archive_status_of(error: &StoreError) -> (status: StatusCode)
    ensures
        status == archive_status(error@),
{
    match error {
        StoreError::NotFound => StatusCode::NotFound,
        StoreError::AlreadyInState => StatusCode::Conflict,
        StoreError::IdentityConflict(_) => StatusCode::Conflict,
        _ => StatusCode::InternalServerError,
    }
}

impl EntityResource {
    /// The routes of the entities.
    pub open spec fn route_table() -> Seq<RouteModel> {
        seq![
            RouteModel {
                method: Method::Post,
                path: "/entities/"@,
                operation: Operation::CreateEntity,
            },
            RouteModel {
                method: Method::Get,
                path: "/entities/"@,
                operation: Operation::GetLatestEntities,
            },
            RouteModel {
                method: Method::Put,
                path: "/entities/"@,
                operation: Operation::UpdateEntity,
            },
            RouteModel {
                method: Method::Post,
                path: "/entities/archive"@,
                operation: Operation::ArchiveEntity,
            },
            RouteModel {
                method: Method::Post,
                path: "/entities/query"@,
                operation: Operation::GetEntitiesByQuery,
            },
            RouteModel {
                method: Method::Get,
                path: "/entities/:entity_uuid"@,
                operation: Operation::GetEntity,
            },
        ]
    }

    /// The routes of the entities.
    pub fn routes() -> (routes: Vec<Route>)
        ensures
            route_models(routes@) == Self::route_table(),
    {
        let mut routes: Vec<Route> = Vec::new();
        routes.push(
            Route { method: Method::Post, path: "/entities/", operation: Operation::CreateEntity },
        );
        routes.push(
            Route {
                method: Method::Get,
                path: "/entities/",
                operation: Operation::GetLatestEntities,
            },
        );
        routes.push(
            Route { method: Method::Put, path: "/entities/", operation: Operation::UpdateEntity },
        );
        routes.push(
            Route {
                method: Method::Post,
                path: "/entities/archive",
                operation: Operation::ArchiveEntity,
            },
        );
        routes.push(
            Route {
                method: Method::Post,
                path: "/entities/query",
                operation: Operation::GetEntitiesByQuery,
            },
        );
        routes.push(
            Route {
                method: Method::Get,
                path: "/entities/:entity_uuid",
                operation: Operation::GetEntity,
            },
        );
        assert(route_models(routes@) =~= Self::route_table());
        routes
    }

    /// The status of a creation that the store refused: an internal error.
    pub fn create_entity(error: &StoreError) -> (status: StatusCode)
        ensures
            status == StatusCode::InternalServerError,
    {
        StatusCode::InternalServerError
    }

    /// The status of an update that the store refused: not found where the
    /// entity does not exist, locked where another writer got there first,
    /// else an internal error.
    pub fn update_entity(error: &StoreError) -> (status: StatusCode)
        ensures
            status == match error@ {
                StoreErrorModel::NotFound => StatusCode::NotFound,
                StoreErrorModel::RaceCondition => StatusCode::Locked,
                _ => StatusCode::InternalServerError,
            },
    {
        match error {
            StoreError::NotFound => StatusCode::NotFound,
            StoreError::RaceCondition => StatusCode::Locked,
            _ => StatusCode::InternalServerError,
        }
    }

    /// The status of an archiving. The latest revision of the entity is read
    /// first: where there is none the entity is not found. The update that
    /// archives it is an internal error where the store refuses it.
    pub fn archive_entity(found: bool, outcome: Option<&StoreError>) -> (status: StatusCode)
        ensures
            status == if !found {
                StatusCode::NotFound
            } else if outcome is Some {
                StatusCode::InternalServerError
            } else {
                StatusCode::Success
            },
    {
        if !found {
            StatusCode::NotFound
        } else if outcome.is_some() {
            StatusCode::InternalServerError
        } else {
            StatusCode::Success
        }
    }

    /// The status of a query for entities that gave no subgraph.
    pub fn get_entities_by_query(failure: &QueryFailure) -> (status: StatusCode)
        ensures
            status == query_status(failure@),
    {
        query_status_of(failure)
    }

    /// What is sent back for one entity out of the revisions that a read
    /// found: the last of them, or not found where there is none.
    pub fn get_entity<T>(entities: Vec<T>) -> (outcome: Result<T, StatusCode>)
        ensures
            entities.len() > 0 ==> outcome == Ok::<T, StatusCode>(entities@.last()),
            entities.len() == 0 ==> outcome == Err::<T, StatusCode>(StatusCode::NotFound),
    {
        let mut entities = entities;
        match entities.pop() {
            Some(entity) => Ok(entity),
            None => Err(StatusCode::NotFound),
        }
    }
}

} // verus!
