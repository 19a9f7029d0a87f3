//! What a filter means: of which records it holds.
//!
//! A conjunction of no conditions holds and a disjunction of none fails. A
//! comparison looks at the values of its two sides: a path stands for the
//! value of the field it names, which may be missing, and a missing side
//! stands for a missing value. Two missing values are equal, and a missing
//! value equals no value that is there.

use crate::filter::{
    lemma_list_model, models, optional_model, side_model, ExpressionModel, Filter,
    FilterExpression, FilterModel,
};
use crate::identifier::VersionedUri;
use crate::parameter::{Parameter, ParameterModel};
use crate::path::{DataTypeQueryPath, OntologyPath, QueryRecord, RecordPath};
use crate::text::text_is;
use vstd::prelude::*;

verus! {

/// What a record shows to a filter: the value of each of its fields, and
/// whether it is the latest revision of its record.
pub trait Record<P: RecordPath> {
    /// The value of a field, if the record has one.
    spec fn field(&self, path: P) -> Option<ParameterModel>;

    /// Whether the record is the latest revision.
    spec fn latest(&self) -> bool;

    fn value_at(&self, path: &P) -> (value: Option<Parameter>)
        ensures
            match self.field(*path) {
                Some(model) => value is Some && value->Some_0@ == model,
                None => value is None,
            },
    ;

    fn is_latest(&self) -> (latest: bool)
        ensures
            latest == self.latest(),
    ;
}

/// What a filter sees of a record.
#[verifier::reject_recursive_types(P)]
pub struct Seen<P> {
    pub field: spec_fn(P) -> Option<ParameterModel>,
    pub latest: bool,
}

/// What a filter sees of a record.
pub open spec fn seen<P: RecordPath, R: Record<P>>(record: &R) -> Seen<P> {
    Seen { field: |path: P| record.field(path), latest: record.latest() }
}

/// Whether the value of a field agrees with a parameter: they are the same
/// value, or the field holds an integer and the parameter is the number
/// that is this integer.
pub open spec fn agrees(field: ParameterModel, parameter: ParameterModel) -> bool {
    field == parameter || match (field, parameter) {
        (ParameterModel::SignedInteger(integer), ParameterModel::Number(number)) => number.exact_integer()
            == Some(integer),
        _ => false,
    }
}

/// Whether a parameter is the word that asks for the latest revision.
pub open spec fn asks_latest(parameter: ParameterModel) -> bool {
    parameter == ParameterModel::Text("latest"@)
}

/// Whether a field equals a parameter. The version of a record equals the
/// word `latest` exactly when the record is the latest revision.
pub open spec fn field_equals<P: RecordPath>(
    record: Seen<P>,
    path: P,
    parameter: ParameterModel,
) -> bool {
    if path.is_version() && asks_latest(parameter) {
        record.latest
    } else {
        match (record.field)(path) {
            Some(value) => agrees(value, parameter),
            None => false,
        }
    }
}

/// Whether the two sides of a comparison are equal.
pub open spec fn sides_equal<P: RecordPath>(
    record: Seen<P>,
    lhs: Option<ExpressionModel<P>>,
    rhs: Option<ExpressionModel<P>>,
) -> bool {
    match (lhs, rhs) {
        (None, None) => true,
        (Some(ExpressionModel::Path(path)), None) => (record.field)(path) is None,
        (None, Some(ExpressionModel::Path(path))) => (record.field)(path) is None,
        (Some(ExpressionModel::Parameter(_)), None) => false,
        (None, Some(ExpressionModel::Parameter(_))) => false,
        (
            Some(ExpressionModel::Path(path)),
            Some(ExpressionModel::Parameter(parameter)),
        ) => field_equals(record, path, parameter),
        (
            Some(ExpressionModel::Parameter(parameter)),
            Some(ExpressionModel::Path(path)),
        ) => field_equals(record, path, parameter),
        (
            Some(ExpressionModel::Path(first)),
            Some(ExpressionModel::Path(second)),
        ) => (record.field)(first) == (record.field)(second),
        (
            Some(ExpressionModel::Parameter(first)),
            Some(ExpressionModel::Parameter(second)),
        ) => first == second,
    }
}

impl<P: RecordPath> FilterModel<P> {
    /// Whether the filter holds of a record.
    pub open spec fn holds(self, record: Seen<P>) -> bool
        decreases self,
    {
        match self {
            FilterModel::All(filters) => forall|i: int|
                0 <= i < filters.len() ==> (#[trigger] filters[i]).holds(record),
            FilterModel::Any(filters) => exists|i: int|
                0 <= i < filters.len() && (#[trigger] filters[i]).holds(record),
            FilterModel::Not(filter) => !filter.holds(record),
            FilterModel::Equal(lhs, rhs) => sides_equal(record, lhs, rhs),
            FilterModel::NotEqual(lhs, rhs) => !sides_equal(record, lhs, rhs),
        }
    }
}

/// Whether the value of a field agrees with a parameter.
fn value_agrees(field: &Parameter, parameter: &Parameter) -> (agree: bool)
    ensures
        agree == agrees(field@, parameter@),
{
    if field.same(parameter) {
        return true;
    }
    match (field, parameter) {
        (Parameter::SignedInteger(integer), Parameter::Number(number)) => match number.to_integer() {
            Some(value) => value == *integer,
            None => false,
        },
        _ => false,
    }
}

/// Whether a parameter is the word that asks for the latest revision.
fn parameter_asks_latest(parameter: &Parameter) -> (asks: bool)
    ensures
        asks == asks_latest(parameter@),
{
    match parameter {
        Parameter::Text(text) => text_is(text.as_str(), "latest"),
        _ => false,
    }
}

/// Whether a field of a record equals a parameter.
fn field_matches<P: RecordPath, R: Record<P>>(record: &R, path: &P, parameter: &Parameter) -> (equal:
    bool)
    ensures
        equal == field_equals(seen(record), *path, parameter@),
{
    if path.names_version() && parameter_asks_latest(parameter) {
        record.is_latest()
    } else {
        match record.value_at(path) {
            Some(value) => value_agrees(&value, parameter),
            None => false,
        }
    }
}

/// Whether two values, each of which may be missing, are the same.
fn same_values(first: &Option<Parameter>, second: &Option<Parameter>) -> (same: bool)
    ensures
        same == (optional_model(*first) == optional_model(*second)),
{
    match (first, second) {
        (Some(first), Some(second)) => first.same(second),
        (None, None) => true,
        _ => false,
    }
}

/// Whether the two sides of a comparison are equal for a record.
fn sides_match<T: QueryRecord, R: Record<T::Path>>(
    record: &R,
    lhs: &Option<FilterExpression<T>>,
    rhs: &Option<FilterExpression<T>>,
) -> (equal: bool)
    ensures
        equal == sides_equal(
            seen(record),
            side_model(*lhs),
            side_model(*rhs),
        ),
{
    match (lhs, rhs) {
        (None, None) => true,
        (Some(FilterExpression::Path(path)), None) => record.value_at(path).is_none(),
        (None, Some(FilterExpression::Path(path))) => record.value_at(path).is_none(),
        (Some(FilterExpression::Parameter(_)), None) => false,
        (None, Some(FilterExpression::Parameter(_))) => false,
        (
            Some(FilterExpression::Path(path)),
            Some(FilterExpression::Parameter(parameter)),
        ) => field_matches(record, path, parameter),
        (
            Some(FilterExpression::Parameter(parameter)),
            Some(FilterExpression::Path(path)),
        ) => field_matches(record, path, parameter),
        (Some(FilterExpression::Path(first)), Some(FilterExpression::Path(second))) => {
            same_values(&record.value_at(first), &record.value_at(second))
        },
        (
            Some(FilterExpression::Parameter(first)),
            Some(FilterExpression::Parameter(second)),
        ) => first.same(second),
    }
}

impl<T: QueryRecord> Filter<T> {
    /// Whether every filter of a list holds of a record.
    fn all_match<R: Record<T::Path>>(filters: &Vec<Filter<T>>, record: &R) -> (all: bool)
        ensures
            all == (forall|i: int|
                0 <= i < filters.len() ==> (#[trigger] models(filters@)[i]).holds(seen(record))),
        decreases filters, 0nat,
    {
        let mut index: usize = 0;
        while index < filters.len()
            invariant
                index <= filters.len(),
                forall|i: int|
                    0 <= i < index ==> (#[trigger] models(filters@)[i]).holds(seen(record)),
            decreases filters.len() - index,
        {
            assert(models(filters@)[index as int] == filters[index as int]@);
            if !filters[index].matches(record) {
                return false;
            }
            index += 1;
        }
        true
    }

    /// Whether some filter of a list holds of a record.
    fn any_matches<R: Record<T::Path>>(filters: &Vec<Filter<T>>, record: &R) -> (any: bool)
        ensures
            any == (exists|i: int|
                0 <= i < filters.len() && (#[trigger] models(filters@)[i]).holds(seen(record))),
        decreases filters, 0nat,
    {
        let mut index: usize = 0;
        while index < filters.len()
            invariant
                index <= filters.len(),
                forall|i: int|
                    0 <= i < index ==> !(#[trigger] models(filters@)[i]).holds(seen(record)),
            decreases filters.len() - index,
        {
            assert(models(filters@)[index as int] == filters[index as int]@);
            if filters[index].matches(record) {
                return true;
            }
            index += 1;
        }
        false
    }

    /// Whether the filter holds of a record.
    pub fn matches<R: Record<T::Path>>(&self, record: &R) -> (holds: bool)
        ensures
            holds == self@.holds(seen(record)),
        decreases self, 1nat,
    {
        match self {
            Filter::All(filters) => {
                proof {
                    lemma_list_model(*filters);
                    assert(self@->All_0 == models(filters@));
                }
                let all = Self::all_match(filters, record);
                all
            },
            Filter::Any(filters) => {
                proof {
                    lemma_list_model(*filters);
                    assert(self@->Any_0 == models(filters@));
                }
                Self::any_matches(filters, record)
            },
            Filter::Not(filter) => !filter.matches(record),
            Filter::Equal(lhs, rhs) => sides_match(record, lhs, rhs),
            Filter::NotEqual(lhs, rhs) => !sides_match(record, lhs, rhs),
        }
    }
}

/// One revision of an ontology record, as a filter sees it.
#[derive(Debug, PartialEq, Eq)]
pub struct OntologyRecord {
    pub id: VersionedUri,
    pub owned_by: u128,
    pub title: String,
    pub description: Option<String>,
    /// The kind of value of a data type.
    pub kind: String,
    pub latest: bool,
}

impl OntologyRecord {
    /// The value of a field of the record itself.
    pub open spec fn own_field(self, field: DataTypeQueryPath) -> Option<ParameterModel> {
        match field {
            DataTypeQueryPath::OwnedById => Some(ParameterModel::Uuid(self.owned_by)),
            DataTypeQueryPath::BaseUri => Some(ParameterModel::Text(self.id@.base_uri)),
            DataTypeQueryPath::VersionedUri => Some(ParameterModel::Text(self.id@.text())),
            DataTypeQueryPath::Version => Some(
                ParameterModel::SignedInteger(self.id@.version as i64),
            ),
            DataTypeQueryPath::Title => Some(ParameterModel::Text(self.title@)),
            DataTypeQueryPath::Description => match self.description {
                Some(description) => Some(ParameterModel::Text(description@)),
                None => None,
            },
            DataTypeQueryPath::Type => Some(ParameterModel::Text(self.kind@)),
        }
    }

    /// The value of a field of the record itself.
    pub fn own_value(&self, field: DataTypeQueryPath) -> (value: Option<Parameter>)
        ensures
            match self.own_field(field) {
                Some(model) => value is Some && value->Some_0@ == model,
                None => value is None,
            },
    {
        match field {
            DataTypeQueryPath::OwnedById => Some(Parameter::Uuid(self.owned_by)),
            DataTypeQueryPath::BaseUri => Some(
                Parameter::Text(self.id.base_uri().as_str().to_owned()),
            ),
            DataTypeQueryPath::VersionedUri => Some(Parameter::Text(self.id.to_string())),
            DataTypeQueryPath::Version => {
                let version: i64 = self.id.version() as i64;
                Some(Parameter::SignedInteger(version))
            },
            DataTypeQueryPath::Title => Some(Parameter::Text(self.title.clone())),
            DataTypeQueryPath::Description => match &self.description {
                Some(description) => Some(Parameter::Text(description.clone())),
                None => None,
            },
            DataTypeQueryPath::Type => Some(Parameter::Text(self.kind.clone())),
        }
    }
}

/// An ontology record shows its own fields to the paths of every ontology
/// record kind. A path that leads to another record finds no value.
impl<P: OntologyPath> Record<P> for OntologyRecord {
    open spec fn field(&self, path: P) -> Option<ParameterModel> {
        match path.common() {
            Some(field) => self.own_field(field),
            None => None,
        }
    }

    open spec fn latest(&self) -> bool {
        self.latest
    }

    fn value_at(&self, path: &P) -> (value: Option<Parameter>) {
        match path.to_common() {
            Some(field) => self.own_value(field),
            None => None,
        }
    }

    fn is_latest(&self) -> (latest: bool) {
        self.latest
    }
}

/// A conjunction of no conditions holds of every record and a disjunction
/// of none holds of no record.
pub proof fn lemma_vacuous<P: RecordPath>(record: Seen<P>)
    ensures
        FilterModel::<P>::All(Seq::empty()).holds(record),
        !FilterModel::<P>::Any(Seq::empty()).holds(record),
{
}

/// A comparison for inequality holds exactly where the comparison for
/// equality fails, a negation exactly where what it negates fails, and the
/// comparison of two missing sides for equality always.
pub proof fn lemma_negations<P: RecordPath>(
    record: Seen<P>,
    filter: FilterModel<P>,
    lhs: Option<ExpressionModel<P>>,
    rhs: Option<ExpressionModel<P>>,
)
    ensures
        FilterModel::NotEqual(lhs, rhs).holds(record) == !FilterModel::Equal(lhs, rhs).holds(
            record,
        ),
        FilterModel::Not(Box::new(filter)).holds(record) == !filter.holds(record),
        FilterModel::Not(Box::new(FilterModel::Not(Box::new(filter)))).holds(record)
            == filter.holds(record),
        FilterModel::<P>::Equal(None, None).holds(record),
        FilterModel::Equal(lhs, rhs).holds(record) == FilterModel::Equal(rhs, lhs).holds(record),
{
    reveal_with_fuel(FilterModel::holds, 3);
}

/// The records of a list of which a filter holds, in the order of the list.
pub open spec fn roots_in<P: RecordPath, R: Record<P>>(filter: FilterModel<P>, records: Seq<R>) -> Seq<
    R,
>
    decreases records.len(),
{
    if records.len() == 0 {
        Seq::empty()
    } else {
        let before = roots_in(filter, records.drop_last());
        if filter.holds(seen(&records.last())) {
            before.push(records.last())
        } else {
            before
        }
    }
}

/// The records that a list of references points to.
pub open spec fn pointed<R>(references: Seq<&R>) -> Seq<R> {
    Seq::new(references.len(), |i: int| *references[i])
}

/// The roots of a query among the records given: the records of which the
/// filter holds, each once for each time it stands in the list, in the order
/// of the list.
pub fn find_roots<'a, T: QueryRecord, R: Record<T::Path>>(
    filter: &Filter<T>,
    records: &'a Vec<R>,
) -> (roots: Vec<&'a R>)
    ensures
        pointed(roots@) == roots_in(filter@, records@),
{
    let mut roots: Vec<&'a R> = Vec::new();
    let mut index: usize = 0;
    proof {
        assert(records@.take(0) =~= Seq::empty());
        assert(pointed(roots@) =~= Seq::empty());
    }
    while index < records.len()
        invariant
            index <= records.len(),
            pointed(roots@) == roots_in(filter@, records@.take(index as int)),
        decreases records.len() - index,
    {
        let ghost earlier = pointed(roots@);
        proof {
            assert(records@.take(index + 1).drop_last() =~= records@.take(index as int));
            assert(records@.take(index + 1).last() == records@[index as int]);
        }
        let record = &records[index];
        if filter.matches(record) {
            roots.push(record);
            proof {
                assert(pointed(roots@) =~= earlier.push(*record));
            }
        }
        index += 1;
    }
    proof {
        assert(records@.take(index as int) =~= records@);
    }
    roots
}

/// The roots are records of the list of which the filter holds, and every
/// record of the list of which the filter holds is a root.
pub proof fn lemma_roots_in<P: RecordPath, R: Record<P>>(filter: FilterModel<P>, records: Seq<R>)
    ensures
        forall|k: int|
            0 <= k < roots_in(filter, records).len() ==> filter.holds(
                seen(&#[trigger] roots_in(filter, records)[k]),
            ) && records.contains(roots_in(filter, records)[k]),
        forall|i: int|
            0 <= i < records.len() && filter.holds(seen(&#[trigger] records[i])) ==> roots_in(
                filter,
                records,
            ).contains(records[i]),
        roots_in(filter, records).len() <= records.len(),
    decreases records.len(),
{
    let roots = roots_in(filter, records);
    if records.len() > 0 {
        let shorter = records.drop_last();
        let before = roots_in(filter, shorter);
        lemma_roots_in(filter, shorter);
        assert forall|k: int| 0 <= k < roots.len() implies filter.holds(seen(&#[trigger] roots[k]))
            && records.contains(roots[k]) by {
            if k < before.len() {
                assert(roots[k] == before[k]);
                let at = choose|at: int| 0 <= at < shorter.len() && shorter[at] == before[k];
                assert(records[at] == roots[k]);
            } else {
                assert(records[records.len() - 1] == roots[k]);
            }
        }
        assert forall|i: int|
            0 <= i < records.len() && filter.holds(
                seen(&#[trigger] records[i]),
            ) implies roots.contains(records[i]) by {
            if i < shorter.len() {
                assert(shorter[i] == records[i]);
                let at = choose|at: int| 0 <= at < before.len() && before[at] == records[i];
                assert(roots[at] == records[i]);
            } else {
                assert(roots[roots.len() - 1] == records[i]);
            }
        }
    }
}

} // verus!
