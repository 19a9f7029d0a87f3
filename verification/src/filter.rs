//! The filter algebra: a tree of conjunctions, disjunctions, negations and
//! comparisons over the paths of one record kind.

use crate::identifier::{EntityId, VersionedUri};
use crate::parameter::{
    lemma_coerced_is_kept, Parameter, ParameterConversionError, ParameterConversionErrorModel,
    ParameterModel,
};
use crate::path::{
    Entity, EntityQueryPath, Link, LinkQueryPath, OntologyPath, QueryRecord, RecordPath,
};
use vstd::prelude::*;

verus! {

/// One side of a comparison.
#[derive(Debug, PartialEq)]
pub enum FilterExpression<T: QueryRecord> {
    Path(T::Path),
    Parameter(Parameter),
}

/// A set of conditions on the records of kind `T`.
///
/// `All` of no conditions holds and `Any` of none fails. A missing side of a
/// comparison stands for the absence of a value.
#[derive(Debug, PartialEq)]
pub enum Filter<T: QueryRecord> {
    All(Vec<Filter<T>>),
    Any(Vec<Filter<T>>),
    Not(Box<Filter<T>>),
    Equal(Option<FilterExpression<T>>, Option<FilterExpression<T>>),
    NotEqual(Option<FilterExpression<T>>, Option<FilterExpression<T>>),
}

/// One side of a comparison, as a mathematical value.
pub enum ExpressionModel<P> {
    Path(P),
    Parameter(ParameterModel),
}

/// A filter over paths of type `P`, as a mathematical value.
pub enum FilterModel<P> {
    All(Seq<FilterModel<P>>),
    Any(Seq<FilterModel<P>>),
    Not(Box<FilterModel<P>>),
    Equal(Option<ExpressionModel<P>>, Option<ExpressionModel<P>>),
    NotEqual(Option<ExpressionModel<P>>, Option<ExpressionModel<P>>),
}

impl<T: QueryRecord> View for FilterExpression<T> {
    type V = ExpressionModel<T::Path>;

    open spec fn view(&self) -> ExpressionModel<T::Path> {
        match self {
            FilterExpression::Path(path) => ExpressionModel::Path(*path),
            FilterExpression::Parameter(parameter) => ExpressionModel::Parameter(parameter@),
        }
    }
}

/// The model of an optional side of a comparison.
pub open spec fn side_model<T: QueryRecord>(side: Option<FilterExpression<T>>) -> Option<
    ExpressionModel<T::Path>,
> {
    match side {
        Some(expression) => Some(expression@),
        None => None,
    }
}

/// The model of a value that may be missing.
pub open spec fn optional_model(value: Option<Parameter>) -> Option<ParameterModel> {
    match value {
        Some(parameter) => Some(parameter@),
        None => None,
    }
}

impl<T: QueryRecord> Filter<T> {
    /// The filter as a mathematical value.
    pub open spec fn model(self) -> FilterModel<T::Path>
        decreases self,
    {
        match self {
            Filter::All(filters) => FilterModel::All(
                Seq::new(
                    filters.len() as nat,
                    |i: int|
                        if 0 <= i < filters.len() {
                            filters[i].model()
                        } else {
                            FilterModel::All(Seq::empty())
                        },
                ),
            ),
            Filter::Any(filters) => FilterModel::Any(
                Seq::new(
                    filters.len() as nat,
                    |i: int|
                        if 0 <= i < filters.len() {
                            filters[i].model()
                        } else {
                            FilterModel::All(Seq::empty())
                        },
                ),
            ),
            Filter::Not(filter) => FilterModel::Not(Box::new((*filter).model())),
            Filter::Equal(lhs, rhs) => FilterModel::Equal(side_model(lhs), side_model(rhs)),
            Filter::NotEqual(lhs, rhs) => FilterModel::NotEqual(side_model(lhs), side_model(rhs)),
        }
    }
}

impl<T: QueryRecord> View for Filter<T> {
    type V = FilterModel<T::Path>;

    open spec fn view(&self) -> FilterModel<T::Path> {
        self.model()
    }
}

/// The state that an attempt to coerce leaves behind, and the error that
/// stopped it, if one did.
pub struct Attempt<S> {
    pub state: S,
    pub error: Option<ParameterConversionErrorModel>,
}

/// Coercing the two sides of a comparison: where one side is a path and the
/// other a parameter, the parameter is coerced to the type the path expects;
/// every other pairing is left alone.
pub open spec fn attempt_pair<P: RecordPath>(
    lhs: Option<ExpressionModel<P>>,
    rhs: Option<ExpressionModel<P>>,
) -> Attempt<(Option<ExpressionModel<P>>, Option<ExpressionModel<P>>)> {
    match (lhs, rhs) {
        (Some(ExpressionModel::Parameter(parameter)), Some(ExpressionModel::Path(path))) => {
            match parameter.coerced(path.expected()) {
                Ok(coerced) => Attempt {
                    state: (Some(ExpressionModel::Parameter(coerced)), rhs),
                    error: None,
                },
                Err(error) => Attempt { state: (lhs, rhs), error: Some(error) },
            }
        },
        (Some(ExpressionModel::Path(path)), Some(ExpressionModel::Parameter(parameter))) => {
            match parameter.coerced(path.expected()) {
                Ok(coerced) => Attempt {
                    state: (lhs, Some(ExpressionModel::Parameter(coerced))),
                    error: None,
                },
                Err(error) => Attempt { state: (lhs, rhs), error: Some(error) },
            }
        },
        _ => Attempt { state: (lhs, rhs), error: None },
    }
}

/// Coercing a list of filters from the first on: the filters before the
/// first that fails are coerced, that one is left as its own attempt left
/// it, and those after it are untouched.
pub open spec fn attempt_all<P: RecordPath>(filters: Seq<FilterModel<P>>) -> Attempt<
    Seq<FilterModel<P>>,
>
    decreases filters, 0nat,
{
    if filters.len() == 0 {
        Attempt { state: filters, error: None }
    } else {
        let before = attempt_all(filters.drop_last());
        if before.error is Some {
            Attempt { state: before.state.push(filters.last()), error: before.error }
        } else {
            let last = filters.last().attempt();
            Attempt { state: before.state.push(last.state), error: last.error }
        }
    }
}

impl<P: RecordPath> FilterModel<P> {
    /// Coercing every parameter that a comparison in the filter pairs with a
    /// path, in the order in which the filter is written, up to the first
    /// failure.
    pub open spec fn attempt(self) -> Attempt<FilterModel<P>>
        decreases self, 1nat,
    {
        match self {
            FilterModel::All(filters) => {
                let inner = attempt_all(filters);
                Attempt { state: FilterModel::All(inner.state), error: inner.error }
            },
            FilterModel::Any(filters) => {
                let inner = attempt_all(filters);
                Attempt { state: FilterModel::Any(inner.state), error: inner.error }
            },
            FilterModel::Not(filter) => {
                let inner = filter.attempt();
                Attempt { state: FilterModel::Not(Box::new(inner.state)), error: inner.error }
            },
            FilterModel::Equal(lhs, rhs) => {
                let inner = attempt_pair(lhs, rhs);
                Attempt { state: FilterModel::Equal(inner.state.0, inner.state.1), error: inner.error }
            },
            FilterModel::NotEqual(lhs, rhs) => {
                let inner = attempt_pair(lhs, rhs);
                Attempt {
                    state: FilterModel::NotEqual(inner.state.0, inner.state.1),
                    error: inner.error,
                }
            },
        }
    }

    /// The filter with every parameter coerced, or the first failure.
    pub open spec fn coerced(self) -> Result<FilterModel<P>, ParameterConversionErrorModel> {
        match self.attempt().error {
            None => Ok(self.attempt().state),
            Some(error) => Err(error),
        }
    }
}

/// The models of a list of filters.
pub open spec fn models<T: QueryRecord>(filters: Seq<Filter<T>>) -> Seq<FilterModel<T::Path>> {
    Seq::new(filters.len(), |i: int| filters[i]@)
}

/// Coerces the parameter of a comparison whose other side is a path.
fn convert_pair<T: QueryRecord>(
    lhs: &mut Option<FilterExpression<T>>,
    rhs: &mut Option<FilterExpression<T>>,
) -> (outcome: Result<(), ParameterConversionError>)
    ensures
        (side_model(*final(lhs)), side_model(*final(rhs))) == attempt_pair(
            side_model(*old(lhs)),
            side_model(*old(rhs)),
        ).state,
        match attempt_pair(side_model(*old(lhs)), side_model(*old(rhs))).error {
            None => outcome is Ok,
            Some(error) => outcome is Err && outcome->Err_0@ == error,
        },
{
    match (lhs, rhs) {
        (Some(FilterExpression::Parameter(parameter)), Some(FilterExpression::Path(path))) => {
            parameter.convert_to_parameter_type(path.expected_type())
        },
        (Some(FilterExpression::Path(path)), Some(FilterExpression::Parameter(parameter))) => {
            parameter.convert_to_parameter_type(path.expected_type())
        },
        _ => Ok(()),
    }
}

impl<T: QueryRecord> Filter<T> {
    /// Coerces the filters of a list in order, up to the first that fails.
    fn converted_all(filters: Vec<Filter<T>>) -> (attempt: (
        Vec<Filter<T>>,
        Result<(), ParameterConversionError>,
    ))
        ensures
            models(attempt.0@) == attempt_all(models(filters@)).state,
            match attempt_all(models(filters@)).error {
                None => attempt.1 is Ok,
                Some(error) => attempt.1 is Err && attempt.1->Err_0@ == error,
            },
        decreases filters, 0nat,
    {
        let ghost before = models(filters@);
        let mut converted: Vec<Filter<T>> = Vec::new();
        let mut outcome: Result<(), ParameterConversionError> = Ok(());
        for filter in iter: filters
            invariant
                iter.seq() == filters@,
                converted.len() == iter.index(),
                before == models(filters@),
                models(converted@) == attempt_all(before.take(iter.index() as int)).state,
                match attempt_all(before.take(iter.index() as int)).error {
                    None => outcome is Ok,
                    Some(error) => outcome is Err && outcome->Err_0@ == error,
                },
        {
            let ghost index = iter.index() as int;
            let ghost earlier = models(converted@);
            proof {
                assert(before.take(index + 1).drop_last() =~= before.take(index));
                assert(before.take(index + 1).last() == filter@);
            }
            if outcome.is_ok() {
                let (next, result) = filter.converted();
                converted.push(next);
                outcome = result;
            } else {
                converted.push(filter);
            }
            assert(models(converted@) =~= earlier.push(converted[index]@));
        }
        proof {
            assert(before.take(filters.len() as int) =~= before);
        }
        (converted, outcome)
    }

    /// The filter with the parameters of its comparisons coerced, up to the
    /// first that fails, and whether one failed.
    fn converted(self) -> (attempt: (Filter<T>, Result<(), ParameterConversionError>))
        ensures
            attempt.0@ == self@.attempt().state,
            match self@.attempt().error {
                None => attempt.1 is Ok,
                Some(error) => attempt.1 is Err && attempt.1->Err_0@ == error,
            },
        decreases self, 1nat,
    {
        match self {
            Filter::All(filters) => {
                proof {
                    lemma_list_model(filters);
                }
                let (filters, outcome) = Self::converted_all(filters);
                proof {
                    lemma_list_model(filters);
                }
                (Filter::All(filters), outcome)
            },
            Filter::Any(filters) => {
                proof {
                    lemma_list_model(filters);
                }
                let (filters, outcome) = Self::converted_all(filters);
                proof {
                    lemma_list_model(filters);
                }
                (Filter::Any(filters), outcome)
            },
            Filter::Not(filter) => {
                let (filter, outcome) = (*filter).converted();
                (Filter::Not(Box::new(filter)), outcome)
            },
            Filter::Equal(lhs, rhs) => {
                let mut lhs = lhs;
                let mut rhs = rhs;
                let outcome = convert_pair(&mut lhs, &mut rhs);
                (Filter::Equal(lhs, rhs), outcome)
            },
            Filter::NotEqual(lhs, rhs) => {
                let mut lhs = lhs;
                let mut rhs = rhs;
                let outcome = convert_pair(&mut lhs, &mut rhs);
                (Filter::NotEqual(lhs, rhs), outcome)
            },
        }
    }

    /// Converts the parameters of every comparison to the type that the
    /// path on its other side expects.
    ///
    /// The comparisons are visited in the order in which the filter is
    /// written. The first parameter that cannot be converted ends the walk:
    /// the error names it, the parameters before it stay converted and the
    /// rest of the filter is untouched.
    pub fn convert_parameters(&mut self) -> (outcome: Result<(), ParameterConversionError>)
        ensures
            final(self)@ == old(self)@.attempt().state,
            match old(self)@.attempt().error {
                None => outcome is Ok,
                Some(error) => outcome is Err && outcome->Err_0@ == error,
            },
    {
        let mut filter: Filter<T> = Filter::All(Vec::new());
        core::mem::swap(self, &mut filter);
        let (filter, outcome) = filter.converted();
        *self = filter;
        outcome
    }
}

/// The model of a conjunction or a disjunction holds the models of its
/// members.
pub proof fn lemma_list_model<T: QueryRecord>(filters: Vec<Filter<T>>)
    ensures
        Filter::All(filters)@ == FilterModel::All(models(filters@)),
        Filter::Any(filters)@ == FilterModel::Any(models(filters@)),
{
    assert(Filter::All(filters)@->All_0 =~= models(filters@));
    assert(Filter::Any(filters)@->Any_0 =~= models(filters@));
}

impl<T: QueryRecord> FilterExpression<T> {
    /// An independent copy of the expression.
    pub fn to_owned(&self) -> (copy: FilterExpression<T>)
        ensures
            copy@ == self@,
    {
        match self {
            FilterExpression::Path(path) => FilterExpression::Path(*path),
            FilterExpression::Parameter(parameter) => FilterExpression::Parameter(
                parameter.to_owned(),
            ),
        }
    }
}

/// The filter that holds where `path` equals the text `text`.
fn path_equals_text<T: QueryRecord>(path: T::Path, text: &str) -> (filter: Filter<T>)
    ensures
        filter@ == FilterModel::Equal(
            Some(ExpressionModel::Path(path)),
            Some(ExpressionModel::Parameter(ParameterModel::Text(text@))),
        ),
{
    Filter::Equal(
        Some(FilterExpression::Path(path)),
        Some(FilterExpression::Parameter(Parameter::Text(String::from_str(text)))),
    )
}

/// The conjunction of two filters.
fn both<T: QueryRecord>(first: Filter<T>, second: Filter<T>) -> (filter: Filter<T>)
    ensures
        filter@ == FilterModel::All(seq![first@, second@]),
{
    let mut filters: Vec<Filter<T>> = Vec::new();
    filters.push(first);
    filters.push(second);
    proof {
        lemma_list_model(filters);
        assert(models(filters@) =~= seq![first@, second@]);
    }
    Filter::All(filters)
}

impl<T: QueryRecord> Filter<T> where T::Path: OntologyPath {
    /// The filter that holds of every ontology record of kind `T` at its
    /// latest version.
    #[must_use]
    pub fn for_latest_version() -> (filter: Filter<T>)
        ensures
            filter@ == FilterModel::Equal(
                Some(ExpressionModel::Path(T::Path::version_path())),
                Some(ExpressionModel::Parameter(ParameterModel::Text("latest"@))),
            ),
    {
        path_equals_text(T::Path::version(), "latest")
    }

    /// The filter that holds of the one ontology record of kind `T` that
    /// `versioned_uri` identifies: its base identifier and its version both
    /// agree.
    #[must_use]
    pub fn for_versioned_uri(versioned_uri: &VersionedUri) -> (filter: Filter<T>)
        ensures
            filter@ == FilterModel::All(
                seq![
                    FilterModel::Equal(
                        Some(ExpressionModel::Path(T::Path::base_uri_path())),
                        Some(
                            ExpressionModel::Parameter(
                                ParameterModel::Text(versioned_uri@.base_uri),
                            ),
                        ),
                    ),
                    FilterModel::Equal(
                        Some(ExpressionModel::Path(T::Path::version_path())),
                        Some(
                            ExpressionModel::Parameter(
                                ParameterModel::SignedInteger(versioned_uri@.version as i64),
                            ),
                        ),
                    ),
                ],
            ),
    {
        let version: i64 = versioned_uri.version() as i64;
        both(
            path_equals_text(T::Path::base_uri(), versioned_uri.base_uri().as_str()),
            Filter::Equal(
                Some(FilterExpression::Path(T::Path::version())),
                Some(FilterExpression::Parameter(Parameter::SignedInteger(version))),
            ),
        )
    }
}

impl Filter<Entity> {
    /// The filter that holds of every entity at its latest version.
    #[must_use]
    pub fn for_all_latest_entities() -> (filter: Filter<Entity>)
        ensures
            filter@ == FilterModel::Equal(
                Some(ExpressionModel::Path(EntityQueryPath::Version)),
                Some(ExpressionModel::Parameter(ParameterModel::Text("latest"@))),
            ),
    {
        path_equals_text(EntityQueryPath::Version, "latest")
    }

    /// The filter that holds of the latest version of the entity that
    /// `entity_id` identifies.
    #[must_use]
    pub fn for_latest_entity_by_entity_id(entity_id: EntityId) -> (filter: Filter<Entity>)
        ensures
            filter@ == FilterModel::All(
                seq![
                    FilterModel::Equal(
                        Some(ExpressionModel::Path(EntityQueryPath::Version)),
                        Some(ExpressionModel::Parameter(ParameterModel::Text("latest"@))),
                    ),
                    FilterModel::Equal(
                        Some(ExpressionModel::Path(EntityQueryPath::Id)),
                        Some(
                            ExpressionModel::Parameter(ParameterModel::Uuid(entity_id.uuid())),
                        ),
                    ),
                ],
            ),
    {
        both(
            Self::for_all_latest_entities(),
            Filter::Equal(
                Some(FilterExpression::Path(EntityQueryPath::Id)),
                Some(FilterExpression::Parameter(Parameter::Uuid(entity_id.as_uuid()))),
            ),
        )
    }
}

impl Filter<Link> {
    /// The filter that holds of the links that start at the entity that
    /// `entity_id` identifies.
    #[must_use]
    pub fn for_link_by_latest_source_entity(entity_id: EntityId) -> (filter: Filter<Link>)
        ensures
            filter@ == FilterModel::Equal(
                Some(ExpressionModel::Path(LinkQueryPath::Source(Some(EntityQueryPath::Id)))),
                Some(ExpressionModel::Parameter(ParameterModel::Uuid(entity_id.uuid()))),
            ),
    {
        Filter::Equal(
            Some(FilterExpression::Path(LinkQueryPath::Source(Some(EntityQueryPath::Id)))),
            Some(FilterExpression::Parameter(Parameter::Uuid(entity_id.as_uuid()))),
        )
    }
}

/// Whether coercion leaves the two sides of a comparison as they are.
pub open spec fn pair_settled<P: RecordPath>(
    lhs: Option<ExpressionModel<P>>,
    rhs: Option<ExpressionModel<P>>,
) -> bool {
    match (lhs, rhs) {
        (
            Some(ExpressionModel::Parameter(parameter)),
            Some(ExpressionModel::Path(path)),
        ) => parameter.kept_by(path.expected()),
        (
            Some(ExpressionModel::Path(path)),
            Some(ExpressionModel::Parameter(parameter)),
        ) => parameter.kept_by(path.expected()),
        _ => true,
    }
}

impl<P: RecordPath> FilterModel<P> {
    /// Whether every parameter that a comparison pairs with a path already
    /// is what coercion would leave in its place.
    pub open spec fn settled(self) -> bool
        decreases self,
    {
        match self {
            FilterModel::All(filters) => forall|i: int|
                0 <= i < filters.len() ==> (#[trigger] filters[i]).settled(),
            FilterModel::Any(filters) => forall|i: int|
                0 <= i < filters.len() ==> (#[trigger] filters[i]).settled(),
            FilterModel::Not(filter) => filter.settled(),
            FilterModel::Equal(lhs, rhs) => pair_settled(lhs, rhs),
            FilterModel::NotEqual(lhs, rhs) => pair_settled(lhs, rhs),
        }
    }
}

/// Coercing a list without failure coerces each member without failure.
pub proof fn lemma_attempt_all_members<P: RecordPath>(filters: Seq<FilterModel<P>>)
    requires
        attempt_all(filters).error is None,
    ensures
        attempt_all(filters).state.len() == filters.len(),
        forall|i: int|
            0 <= i < filters.len() ==> (#[trigger] filters[i]).attempt().error is None
                && attempt_all(filters).state[i] == filters[i].attempt().state,
    decreases filters.len(),
{
    if filters.len() > 0 {
        lemma_attempt_all_members(filters.drop_last());
        assert forall|i: int| 0 <= i < filters.len() implies (#[trigger] filters[i]).attempt().error
            is None && attempt_all(filters).state[i] == filters[i].attempt().state by {
            if i < filters.len() - 1 {
                assert(filters.drop_last()[i] == filters[i]);
            }
        }
    }
}

/// A list of which one member fails to coerce fails to coerce.
pub proof fn lemma_attempt_all_fails<P: RecordPath>(filters: Seq<FilterModel<P>>, failing: int)
    requires
        0 <= failing < filters.len(),
        filters[failing].attempt().error is Some,
    ensures
        attempt_all(filters).error is Some,
    decreases filters.len(),
{
    if failing < filters.len() - 1 {
        assert(filters.drop_last()[failing] == filters[failing]);
        lemma_attempt_all_fails(filters.drop_last(), failing);
    }
}

/// Coercing a list of settled filters changes nothing and does not fail.
pub proof fn lemma_settled_all<P: RecordPath>(filters: Seq<FilterModel<P>>)
    requires
        forall|i: int| 0 <= i < filters.len() ==> (#[trigger] filters[i]).settled(),
    ensures
        attempt_all(filters) == (Attempt { state: filters, error: None }),
    decreases filters, 0nat,
{
    if filters.len() > 0 {
        let shorter = filters.drop_last();
        assert forall|i: int| 0 <= i < shorter.len() implies (#[trigger] shorter[i]).settled() by {
            assert(shorter[i] == filters[i]);
        }
        lemma_settled_all(shorter);
        lemma_settled(filters.last());
        assert(shorter.push(filters.last()) =~= filters);
    }
}

/// Coercing a settled filter changes nothing and does not fail.
pub proof fn lemma_settled<P: RecordPath>(filter: FilterModel<P>)
    requires
        filter.settled(),
    ensures
        filter.attempt() == (Attempt { state: filter, error: None }),
        filter.coerced() == Ok::<FilterModel<P>, ParameterConversionErrorModel>(filter),
    decreases filter, 1nat,
{
    match filter {
        FilterModel::All(filters) => {
            lemma_settled_all(filters);
        },
        FilterModel::Any(filters) => {
            lemma_settled_all(filters);
        },
        FilterModel::Not(inner) => {
            lemma_settled(*inner);
        },
        _ => {},
    }
}

/// What coercion makes of the members of a list is settled.
proof fn lemma_coerced_all_settled<P: RecordPath>(filters: Seq<FilterModel<P>>)
    requires
        attempt_all(filters).error is None,
    ensures
        forall|i: int|
            0 <= i < attempt_all(filters).state.len() ==> (#[trigger] attempt_all(
                filters,
            ).state[i]).settled(),
    decreases filters,
{
    lemma_attempt_all_members(filters);
    assert forall|i: int| 0 <= i < attempt_all(filters).state.len() implies (#[trigger] attempt_all(
        filters,
    ).state[i]).settled() by {
        lemma_coerced_settled(filters[i]);
    }
}

/// What coercion makes of a filter is settled: every parameter that it
/// converted is now of the kind that its path expects.
pub proof fn lemma_coerced_settled<P: RecordPath>(filter: FilterModel<P>)
    requires
        filter.attempt().error is None,
    ensures
        filter.attempt().state.settled(),
    decreases filter,
{
    match filter {
        FilterModel::All(filters) => {
            lemma_coerced_all_settled(filters);
        },
        FilterModel::Any(filters) => {
            lemma_coerced_all_settled(filters);
        },
        FilterModel::Not(inner) => {
            lemma_coerced_settled(*inner);
        },
        FilterModel::Equal(lhs, rhs) => {
            lemma_coerced_pair_settled(lhs, rhs);
        },
        FilterModel::NotEqual(lhs, rhs) => {
            lemma_coerced_pair_settled(lhs, rhs);
        },
    }
}

/// What coercion makes of the two sides of a comparison is settled.
proof fn lemma_coerced_pair_settled<P: RecordPath>(
    lhs: Option<ExpressionModel<P>>,
    rhs: Option<ExpressionModel<P>>,
)
    requires
        attempt_pair(lhs, rhs).error is None,
    ensures
        pair_settled(attempt_pair(lhs, rhs).state.0, attempt_pair(lhs, rhs).state.1),
{
    match (lhs, rhs) {
        (Some(ExpressionModel::Parameter(parameter)), Some(ExpressionModel::Path(path))) => {
            lemma_coerced_is_kept(parameter, path.expected());
        },
        (Some(ExpressionModel::Path(path)), Some(ExpressionModel::Parameter(parameter))) => {
            lemma_coerced_is_kept(parameter, path.expected());
        },
        _ => {},
    }
}

/// Coercion is idempotent: a filter that coerced once coerces again, and
/// the second coercion changes nothing.
pub proof fn lemma_second_coercion<P: RecordPath>(filter: FilterModel<P>)
    requires
        filter.coerced() is Ok,
    ensures
        filter.coerced()->Ok_0.coerced() == filter.coerced(),
{
    lemma_coerced_settled(filter);
    lemma_settled(filter.attempt().state);
}

} // verus!
