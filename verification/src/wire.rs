//! The wire shape of a filter: how a filter is read from and written as a
//! tree of JSON values.
//!
//! A comparison is an object with the single key `equal` or `notEqual` over a
//! list of two sides. A side is `null`, an object with the single key `path`
//! over a list of segments, or an object with the single key `parameter` over
//! a boolean, a number or a text. The combinators are objects with the single
//! key `all` or `any` over a list of filters, or `not` over one filter.

use crate::filter::{
    lemma_list_model, models, side_model, ExpressionModel, Filter, FilterExpression, FilterModel,
};
use crate::number::Number;
use crate::parameter::{Parameter, ParameterModel};
use crate::path::{QueryRecord, RecordPath};
use crate::text::{text_is, texts};
use vstd::prelude::*;

verus! {

/// A JSON value.
#[derive(Debug, PartialEq)]
pub enum JsonValue {
    Null,
    Bool(bool),
    Number(Number),
    String(String),
    Array(Vec<JsonValue>),
    Object(Vec<(String, JsonValue)>),
}

/// A JSON value, as a mathematical value.
pub enum JsonModel {
    Null,
    Bool(bool),
    Number(Number),
    String(Seq<char>),
    Array(Seq<JsonModel>),
    Object(Seq<(Seq<char>, JsonModel)>),
}

impl JsonValue {
    /// The value as a mathematical value.
    pub open spec fn model(self) -> JsonModel
        decreases self,
    {
        match self {
            JsonValue::Null => JsonModel::Null,
            JsonValue::Bool(value) => JsonModel::Bool(value),
            JsonValue::Number(value) => JsonModel::Number(value),
            JsonValue::String(value) => JsonModel::String(value@),
            JsonValue::Array(items) => JsonModel::Array(
                Seq::new(
                    items.len() as nat,
                    |i: int|
                        if 0 <= i < items.len() {
                            items[i].model()
                        } else {
                            JsonModel::Null
                        },
                ),
            ),
            JsonValue::Object(members) => JsonModel::Object(
                Seq::new(
                    members.len() as nat,
                    |i: int|
                        if 0 <= i < members.len() {
                            (members[i].0@, members[i].1.model())
                        } else {
                            (Seq::empty(), JsonModel::Null)
                        },
                ),
            ),
        }
    }
}

impl View for JsonValue {
    type V = JsonModel;

    open spec fn view(&self) -> JsonModel {
        self.model()
    }
}

/// The models of a list of values.
pub open spec fn values(items: Seq<JsonValue>) -> Seq<JsonModel> {
    Seq::new(items.len(), |i: int| items[i]@)
}

/// The models of the members of an object.
pub open spec fn members(items: Seq<(String, JsonValue)>) -> Seq<(Seq<char>, JsonModel)> {
    Seq::new(items.len(), |i: int| (items[i].0@, items[i].1@))
}

/// The model of a list or an object holds the models of what it holds.
pub proof fn lemma_json_model(value: JsonValue)
    ensures
        value matches JsonValue::Array(items) ==> value@ == JsonModel::Array(values(items@)),
        value matches JsonValue::Object(items) ==> value@ == JsonModel::Object(members(items@)),
{
    match value {
        JsonValue::Array(items) => {
            assert(value@->Array_0 =~= values(items@));
        },
        JsonValue::Object(items) => {
            assert(value@->Object_0 =~= members(items@));
        },
        _ => {},
    }
}

/// A value that is no filter of the record kind asked for.
#[derive(Clone, Copy, Debug, PartialEq, Eq, Structural)]
pub struct DeserializationError;

/// The object with one member.
pub open spec fn tagged(key: Seq<char>, value: JsonModel) -> JsonModel {
    JsonModel::Object(seq![(key, value)])
}

/// The parameter that a value stands for: a boolean, a number or a text.
pub open spec fn parameter_in(json: JsonModel) -> Option<ParameterModel> {
    match json {
        JsonModel::Bool(value) => Some(ParameterModel::Boolean(value)),
        JsonModel::Number(value) => Some(ParameterModel::Number(value)),
        JsonModel::String(value) => Some(ParameterModel::Text(value)),
        _ => None,
    }
}

/// The texts of a list of values that are all texts.
pub open spec fn strings_in(items: Seq<JsonModel>) -> Option<Seq<Seq<char>>> {
    if forall|i: int| 0 <= i < items.len() ==> (#[trigger] items[i]) is String {
        Some(Seq::new(items.len(), |i: int| items[i]->String_0))
    } else {
        None
    }
}

/// The path that a value stands for: a list of texts that spells a path.
pub open spec fn path_in<P: RecordPath>(json: JsonModel) -> Option<P> {
    match json {
        JsonModel::Array(items) => match strings_in(items) {
            Some(segments) => P::parse(segments),
            None => None,
        },
        _ => None,
    }
}

/// The side of a comparison that a value stands for.
pub open spec fn side_in<P: RecordPath>(json: JsonModel) -> Option<Option<ExpressionModel<P>>> {
    match json {
        JsonModel::Null => Some(None),
        JsonModel::Object(items) => if items.len() != 1 {
            None
        } else if items[0].0 == "path"@ {
            match path_in::<P>(items[0].1) {
                Some(path) => Some(Some(ExpressionModel::Path(path))),
                None => None,
            }
        } else if items[0].0 == "parameter"@ {
            match parameter_in(items[0].1) {
                Some(parameter) => Some(Some(ExpressionModel::Parameter(parameter))),
                None => None,
            }
        } else {
            None
        },
        _ => None,
    }
}

/// The comparison that a value stands for: a list of two sides.
pub open spec fn pair_in<P: RecordPath>(json: JsonModel) -> Option<
    (Option<ExpressionModel<P>>, Option<ExpressionModel<P>>),
> {
    match json {
        JsonModel::Array(items) => if items.len() == 2 && side_in::<P>(items[0]) is Some
            && side_in::<P>(items[1]) is Some {
            Some((side_in::<P>(items[0])->Some_0, side_in::<P>(items[1])->Some_0))
        } else {
            None
        },
        _ => None,
    }
}

/// The filters that a list of values stands for, if each stands for one.
pub open spec fn filters_in<P: RecordPath>(items: Seq<JsonModel>) -> Option<Seq<FilterModel<P>>>
    decreases items, 0nat,
{
    if forall|i: int| 0 <= i < items.len() ==> filter_in::<P>(#[trigger] items[i]) is Some {
        Some(
            Seq::new(
                items.len(),
                |i: int|
                    if 0 <= i < items.len() {
                        filter_in::<P>(items[i])->Some_0
                    } else {
                        FilterModel::All(Seq::empty())
                    },
            ),
        )
    } else {
        None
    }
}

/// The filter that a value stands for, if it stands for one.
pub open spec fn filter_in<P: RecordPath>(json: JsonModel) -> Option<FilterModel<P>>
    decreases json, 1nat,
{
    match json {
        JsonModel::Object(items) => if items.len() != 1 {
            None
        } else {
            let key = items[0].0;
            let value = items[0].1;
            if key == "all"@ {
                match value {
                    JsonModel::Array(list) => match filters_in::<P>(list) {
                        Some(filters) => Some(FilterModel::All(filters)),
                        None => None,
                    },
                    _ => None,
                }
            } else if key == "any"@ {
                match value {
                    JsonModel::Array(list) => match filters_in::<P>(list) {
                        Some(filters) => Some(FilterModel::Any(filters)),
                        None => None,
                    },
                    _ => None,
                }
            } else if key == "not"@ {
                match filter_in::<P>(value) {
                    Some(filter) => Some(FilterModel::Not(Box::new(filter))),
                    None => None,
                }
            } else if key == "equal"@ {
                match pair_in::<P>(value) {
                    Some(pair) => Some(FilterModel::Equal(pair.0, pair.1)),
                    None => None,
                }
            } else if key == "notEqual"@ {
                match pair_in::<P>(value) {
                    Some(pair) => Some(FilterModel::NotEqual(pair.0, pair.1)),
                    None => None,
                }
            } else {
                None
            }
        },
        _ => None,
    }
}

impl Parameter {
    /// Reads a parameter: a boolean, a number or a text.
    pub fn from_json(json: &JsonValue) -> (parameter: Option<Parameter>)
        ensures
            match parameter_in(json@) {
                Some(model) => parameter is Some && parameter->Some_0@ == model,
                None => parameter is None,
            },
    {
        match json {
            JsonValue::Bool(value) => Some(Parameter::Boolean(*value)),
            JsonValue::Number(value) => Some(Parameter::Number(*value)),
            JsonValue::String(value) => Some(Parameter::Text(value.clone())),
            _ => None,
        }
    }
}

/// The texts of a list of values that are all texts.
fn strings(items: &Vec<JsonValue>) -> (found: Option<Vec<String>>)
    ensures
        match strings_in(values(items@)) {
            Some(segments) => found is Some && texts(found->Some_0@) == segments,
            None => found is None,
        },
{
    let mut found: Vec<String> = Vec::new();
    let mut index: usize = 0;
    while index < items.len()
        invariant
            index <= items.len(),
            found.len() == index,
            forall|at: int|
                0 <= at < index ==> (#[trigger] values(items@)[at]) == JsonModel::String(
                    found[at]@,
                ),
        decreases items.len() - index,
    {
        match &items[index] {
            JsonValue::String(text) => {
                found.push(text.clone());
            },
            _ => {
                assert(!(values(items@)[index as int] is String));
                return None;
            },
        }
        index += 1;
    }
    assert(texts(found@) =~= strings_in(values(items@))->Some_0);
    Some(found)
}

/// The member of an object that has exactly one.
fn single_member(json: &JsonValue) -> (member: Option<(&String, &JsonValue)>)
    ensures
        match json@ {
            JsonModel::Object(items) => if items.len() == 1 {
                member is Some && member->Some_0.0@ == items[0].0 && member->Some_0.1@
                    == items[0].1
            } else {
                member is None
            },
            _ => member is None,
        },
        member is Some ==> json is Object && json->Object_0.len() == 1 && *member->Some_0.1
            == json->Object_0[0].1,
{
    proof {
        lemma_json_model(*json);
    }
    match json {
        JsonValue::Object(items) => if items.len() == 1 {
            Some((&items[0].0, &items[0].1))
        } else {
            None
        },
        _ => None,
    }
}

/// Reads a path: a list of texts that spells a path of the record kind.
fn path_from_json<T: QueryRecord>(json: &JsonValue) -> (path: Option<T::Path>)
    ensures
        path == path_in::<T::Path>(json@),
{
    proof {
        lemma_json_model(*json);
    }
    match json {
        JsonValue::Array(items) => match strings(items) {
            Some(segments) => T::Path::from_segments(&segments),
            None => None,
        },
        _ => None,
    }
}

/// Reads one side of a comparison.
fn side_from_json<T: QueryRecord>(json: &JsonValue) -> (side: Option<Option<FilterExpression<T>>>)
    ensures
        match side_in::<T::Path>(json@) {
            Some(model) => side is Some && side_model(side->Some_0) == model,
            None => side is None,
        },
{
    if let JsonValue::Null = json {
        return Some(None);
    }
    match single_member(json) {
        Some((key, value)) => {
            if text_is(key.as_str(), "path") {
                match path_from_json::<T>(value) {
                    Some(path) => Some(Some(FilterExpression::Path(path))),
                    None => None,
                }
            } else if text_is(key.as_str(), "parameter") {
                match Parameter::from_json(value) {
                    Some(parameter) => Some(Some(FilterExpression::Parameter(parameter))),
                    None => None,
                }
            } else {
                None
            }
        },
        None => None,
    }
}

/// Reads the two sides of a comparison.
fn pair_from_json<T: QueryRecord>(json: &JsonValue) -> (pair: Option<
    (Option<FilterExpression<T>>, Option<FilterExpression<T>>),
>)
    ensures
        match pair_in::<T::Path>(json@) {
            Some(model) => pair is Some && side_model(pair->Some_0.0) == model.0 && side_model(
                pair->Some_0.1,
            ) == model.1,
            None => pair is None,
        },
{
    proof {
        lemma_json_model(*json);
    }
    match json {
        JsonValue::Array(items) => {
            if items.len() != 2 {
                return None;
            }
            assert(values(items@)[0] == items[0]@);
            assert(values(items@)[1] == items[1]@);
            let lhs = match side_from_json::<T>(&items[0]) {
                Some(side) => side,
                None => {
                    return None;
                },
            };
            let rhs = match side_from_json::<T>(&items[1]) {
                Some(side) => side,
                None => {
                    return None;
                },
            };
            Some((lhs, rhs))
        },
        _ => None,
    }
}

impl<T: QueryRecord> Filter<T> {
    /// Reads a list of filters.
    fn list_from_json(items: &Vec<JsonValue>) -> (filters: Option<Vec<Filter<T>>>)
        ensures
            match filters_in::<T::Path>(values(items@)) {
                Some(found) => filters is Some && models(filters->Some_0@) == found,
                None => filters is None,
            },
        decreases items, 0nat,
    {
        let mut filters: Vec<Filter<T>> = Vec::new();
        let mut index: usize = 0;
        while index < items.len()
            invariant
                index <= items.len(),
                filters.len() == index,
                forall|at: int|
                    0 <= at < index ==> filter_in::<T::Path>(#[trigger] values(items@)[at])
                        == Some(filters[at]@),
            decreases items.len() - index,
        {
            assert(values(items@)[index as int] == items[index as int]@);
            match Self::read(&items[index]) {
                Some(filter) => {
                    filters.push(filter);
                },
                None => {
                    return None;
                },
            }
            index += 1;
        }
        assert(models(filters@) =~= filters_in::<T::Path>(values(items@))->Some_0);
        Some(filters)
    }

    /// Reads a filter, if the value stands for one.
    fn read(json: &JsonValue) -> (filter: Option<Filter<T>>)
        ensures
            match filter_in::<T::Path>(json@) {
                Some(found) => filter is Some && filter->Some_0@ == found,
                None => filter is None,
            },
        decreases json, 1nat,
    {
        let (key, value) = match single_member(json) {
            Some(member) => member,
            None => {
                return None;
            },
        };
        proof {
            lemma_json_model(*value);
        }
        let key = key.as_str();
        if text_is(key, "all") {
            match value {
                JsonValue::Array(items) => match Self::list_from_json(items) {
                    Some(filters) => {
                        proof {
                            lemma_list_model(filters);
                        }
                        Some(Filter::All(filters))
                    },
                    None => None,
                },
                _ => None,
            }
        } else if text_is(key, "any") {
            match value {
                JsonValue::Array(items) => match Self::list_from_json(items) {
                    Some(filters) => {
                        proof {
                            lemma_list_model(filters);
                        }
                        Some(Filter::Any(filters))
                    },
                    None => None,
                },
                _ => None,
            }
        } else if text_is(key, "not") {
            match Self::read(value) {
                Some(filter) => Some(Filter::Not(Box::new(filter))),
                None => None,
            }
        } else if text_is(key, "equal") {
            match pair_from_json::<T>(value) {
                Some((lhs, rhs)) => Some(Filter::Equal(lhs, rhs)),
                None => None,
            }
        } else if text_is(key, "notEqual") {
            match pair_from_json::<T>(value) {
                Some((lhs, rhs)) => Some(Filter::NotEqual(lhs, rhs)),
                None => None,
            }
        } else {
            None
        }
    }

    /// Reads a filter over the paths of `T` from its wire shape.
    ///
    /// The value is accepted exactly when it has the shape of a filter and
    /// every path in it names a field of `T`.
    pub fn from_json(json: &JsonValue) -> (outcome: Result<Filter<T>, DeserializationError>)
        ensures
            match filter_in::<T::Path>(json@) {
                Some(found) => outcome is Ok && outcome->Ok_0@ == found,
                None => outcome == Err::<Filter<T>, DeserializationError>(DeserializationError),
            },
    {
        match Self::read(json) {
            Some(filter) => Ok(filter),
            None => Err(DeserializationError),
        }
    }
}

/// The value that writes a parameter. Only what can arrive from outside has
/// a wire shape: a UUID and an integer, which coercion produces, have none.
pub open spec fn json_of_parameter(parameter: ParameterModel) -> Option<JsonModel> {
    match parameter {
        ParameterModel::Boolean(value) => Some(JsonModel::Bool(value)),
        ParameterModel::Number(value) => Some(JsonModel::Number(value)),
        ParameterModel::Text(value) => Some(JsonModel::String(value)),
        _ => None,
    }
}

/// The list of texts that writes the segments of a path.
pub open spec fn json_of_segments(segments: Seq<Seq<char>>) -> JsonModel {
    JsonModel::Array(Seq::new(segments.len(), |i: int| JsonModel::String(segments[i])))
}

/// The value that writes one side of a comparison.
pub open spec fn json_of_side<P: RecordPath>(side: Option<ExpressionModel<P>>) -> Option<
    JsonModel,
> {
    match side {
        None => Some(JsonModel::Null),
        Some(ExpressionModel::Path(path)) => Some(
            tagged("path"@, json_of_segments(path.segments())),
        ),
        Some(ExpressionModel::Parameter(parameter)) => match json_of_parameter(parameter) {
            Some(json) => Some(tagged("parameter"@, json)),
            None => None,
        },
    }
}

/// The value that writes a comparison under `key`.
pub open spec fn json_of_pair<P: RecordPath>(
    key: Seq<char>,
    lhs: Option<ExpressionModel<P>>,
    rhs: Option<ExpressionModel<P>>,
) -> Option<JsonModel> {
    if json_of_side(lhs) is Some && json_of_side(rhs) is Some {
        Some(
            tagged(key, JsonModel::Array(seq![json_of_side(lhs)->Some_0, json_of_side(rhs)->Some_0])),
        )
    } else {
        None
    }
}

/// The values that write a list of filters, if each can be written.
pub open spec fn jsons_of<P: RecordPath>(filters: Seq<FilterModel<P>>) -> Option<Seq<JsonModel>>
    decreases filters, 0nat,
{
    if forall|i: int| 0 <= i < filters.len() ==> json_of(#[trigger] filters[i]) is Some {
        Some(
            Seq::new(
                filters.len(),
                |i: int|
                    if 0 <= i < filters.len() {
                        json_of(filters[i])->Some_0
                    } else {
                        JsonModel::Null
                    },
            ),
        )
    } else {
        None
    }
}

/// The value that writes a filter, if the filter can be written: if it
/// holds no parameter that coercion produced.
pub open spec fn json_of<P: RecordPath>(filter: FilterModel<P>) -> Option<JsonModel>
    decreases filter, 1nat,
{
    match filter {
        FilterModel::All(filters) => match jsons_of(filters) {
            Some(list) => Some(tagged("all"@, JsonModel::Array(list))),
            None => None,
        },
        FilterModel::Any(filters) => match jsons_of(filters) {
            Some(list) => Some(tagged("any"@, JsonModel::Array(list))),
            None => None,
        },
        FilterModel::Not(inner) => match json_of(*inner) {
            Some(json) => Some(tagged("not"@, json)),
            None => None,
        },
        FilterModel::Equal(lhs, rhs) => json_of_pair("equal"@, lhs, rhs),
        FilterModel::NotEqual(lhs, rhs) => json_of_pair("notEqual"@, lhs, rhs),
    }
}

/// The keys of the wire shape are spelled as stated, so no two are the same.
proof fn lemma_keys()
    ensures
        "all"@.len() == 3,
        "any"@.len() == 3,
        "not"@.len() == 3,
        "equal"@.len() == 5,
        "notEqual"@.len() == 8,
        "path"@.len() == 4,
        "parameter"@.len() == 9,
        "all"@[0] == 'a',
        "all"@[1] == 'l',
        "any"@[0] == 'a',
        "any"@[1] == 'n',
        "not"@[0] == 'n',
{
    reveal_strlit("all");
    reveal_strlit("any");
    reveal_strlit("not");
    reveal_strlit("equal");
    reveal_strlit("notEqual");
    reveal_strlit("path");
    reveal_strlit("parameter");
}

/// Reading what writes one side of a comparison gives the side back.
pub proof fn lemma_side_round_trip<P: RecordPath>(side: Option<ExpressionModel<P>>)
    requires
        json_of_side(side) is Some,
    ensures
        side_in::<P>(json_of_side(side)->Some_0) == Some(side),
{
    lemma_keys();
    match side {
        None => {},
        Some(ExpressionModel::Path(path)) => {
            let segments = path.segments();
            let list = json_of_segments(segments)->Array_0;
            assert(strings_in(list)->Some_0 =~= segments);
            path.lemma_parse_segments();
        },
        Some(ExpressionModel::Parameter(parameter)) => {},
    }
}

/// Reading what writes a list of filters gives the list back.
proof fn lemma_list_round_trip<P: RecordPath>(filters: Seq<FilterModel<P>>)
    requires
        jsons_of(filters) is Some,
    ensures
        filters_in::<P>(jsons_of(filters)->Some_0) == Some(filters),
    decreases filters, 0nat,
{
    let list = jsons_of(filters)->Some_0;
    assert forall|i: int| 0 <= i < list.len() implies filter_in::<P>(#[trigger] list[i]) == Some(
        filters[i],
    ) by {
        lemma_json_round_trip(filters[i]);
    }
    assert(filters_in::<P>(list)->Some_0 =~= filters);
}

/// Writing a filter and reading what was written gives the filter back.
pub proof fn lemma_json_round_trip<P: RecordPath>(filter: FilterModel<P>)
    requires
        json_of(filter) is Some,
    ensures
        filter_in::<P>(json_of(filter)->Some_0) == Some(filter),
    decreases filter, 1nat,
{
    lemma_keys();
    match filter {
        FilterModel::All(filters) => {
            lemma_list_round_trip(filters);
        },
        FilterModel::Any(filters) => {
            lemma_list_round_trip(filters);
        },
        FilterModel::Not(inner) => {
            lemma_json_round_trip(*inner);
        },
        FilterModel::Equal(lhs, rhs) => {
            lemma_side_round_trip(lhs);
            lemma_side_round_trip(rhs);
        },
        FilterModel::NotEqual(lhs, rhs) => {
            lemma_side_round_trip(lhs);
            lemma_side_round_trip(rhs);
        },
    }
}

/// The object with one member.
fn tag(key: &str, value: JsonValue) -> (json: JsonValue)
    ensures
        json@ == tagged(key@, value@),
{
    let mut items: Vec<(String, JsonValue)> = Vec::new();
    items.push((String::from_str(key), value));
    let json = JsonValue::Object(items);
    proof {
        lemma_json_model(json);
        assert(members(items@) =~= seq![(key@, value@)]);
    }
    json
}

/// The list that holds the given values.
fn list(items: Vec<JsonValue>) -> (json: JsonValue)
    ensures
        json@ == JsonModel::Array(values(items@)),
{
    let json = JsonValue::Array(items);
    proof {
        lemma_json_model(json);
    }
    json
}

impl Parameter {
    /// Writes a parameter, if it has a wire shape.
    pub fn to_json(&self) -> (json: Option<JsonValue>)
        ensures
            match json_of_parameter(self@) {
                Some(model) => json is Some && json->Some_0@ == model,
                None => json is None,
            },
    {
        match self {
            Parameter::Boolean(value) => Some(JsonValue::Bool(*value)),
            Parameter::Number(value) => Some(JsonValue::Number(*value)),
            Parameter::Text(value) => Some(JsonValue::String(value.clone())),
            _ => None,
        }
    }
}

/// Writes the segments of a path.
fn segments_to_json(segments: Vec<String>) -> (json: JsonValue)
    ensures
        json@ == json_of_segments(texts(segments@)),
{
    let ghost all = texts(segments@);
    let mut items: Vec<JsonValue> = Vec::new();
    for segment in iter: segments
        invariant
            iter.seq() == segments@,
            all == texts(segments@),
            items.len() == iter.index(),
            forall|at: int| 0 <= at < items.len() ==> items[at]@ == JsonModel::String(all[at]),
    {
        items.push(JsonValue::String(segment));
    }
    proof {
        assert(values(items@) =~= json_of_segments(all)->Array_0);
    }
    list(items)
}

/// Writes one side of a comparison.
fn side_to_json<T: QueryRecord>(side: &Option<FilterExpression<T>>) -> (json: Option<JsonValue>)
    ensures
        match json_of_side(side_model(*side)) {
            Some(model) => json is Some && json->Some_0@ == model,
            None => json is None,
        },
{
    match side {
        None => Some(JsonValue::Null),
        Some(FilterExpression::Path(path)) => Some(
            tag("path", segments_to_json(path.to_segments())),
        ),
        Some(FilterExpression::Parameter(parameter)) => match parameter.to_json() {
            Some(json) => Some(tag("parameter", json)),
            None => None,
        },
    }
}

/// Writes a comparison under `key`.
fn pair_to_json<T: QueryRecord>(
    key: &str,
    lhs: &Option<FilterExpression<T>>,
    rhs: &Option<FilterExpression<T>>,
) -> (json: Option<JsonValue>)
    ensures
        match json_of_pair(key@, side_model(*lhs), side_model(*rhs)) {
            Some(model) => json is Some && json->Some_0@ == model,
            None => json is None,
        },
{
    let first = match side_to_json(lhs) {
        Some(json) => json,
        None => {
            return None;
        },
    };
    let second = match side_to_json(rhs) {
        Some(json) => json,
        None => {
            return None;
        },
    };
    let mut sides: Vec<JsonValue> = Vec::new();
    sides.push(first);
    sides.push(second);
    proof {
        assert(values(sides@) =~= seq![first@, second@]);
    }
    Some(tag(key, list(sides)))
}

impl<T: QueryRecord> Filter<T> {
    /// Writes a list of filters.
    fn list_to_json(filters: &Vec<Filter<T>>) -> (json: Option<JsonValue>)
        ensures
            match jsons_of(models(filters@)) {
                Some(found) => json is Some && json->Some_0@ == JsonModel::Array(found),
                None => json is None,
            },
        decreases filters, 0nat,
    {
        let mut items: Vec<JsonValue> = Vec::new();
        let mut index: usize = 0;
        while index < filters.len()
            invariant
                index <= filters.len(),
                items.len() == index,
                forall|at: int|
                    0 <= at < index ==> json_of(#[trigger] models(filters@)[at]) == Some(
                        items[at]@,
                    ),
            decreases filters.len() - index,
        {
            assert(models(filters@)[index as int] == filters[index as int]@);
            match filters[index].to_json() {
                Some(json) => {
                    items.push(json);
                },
                None => {
                    return None;
                },
            }
            index += 1;
        }
        assert(values(items@) =~= jsons_of(models(filters@))->Some_0);
        Some(list(items))
    }

    /// Writes a filter in its wire shape.
    ///
    /// A filter that holds a parameter which coercion produced cannot be
    /// written and gives `None`. What is written reads back as the same
    /// filter.
    pub fn to_json(&self) -> (json: Option<JsonValue>)
        ensures
            match json_of(self@) {
                Some(model) => json is Some && json->Some_0@ == model,
                None => json is None,
            },
        decreases self, 1nat,
    {
        match self {
            Filter::All(filters) => {
                proof {
                    lemma_list_model(*filters);
                }
                match Self::list_to_json(filters) {
                    Some(json) => Some(tag("all", json)),
                    None => None,
                }
            },
            Filter::Any(filters) => {
                proof {
                    lemma_list_model(*filters);
                }
                match Self::list_to_json(filters) {
                    Some(json) => Some(tag("any", json)),
                    None => None,
                }
            },
            Filter::Not(filter) => match filter.to_json() {
                Some(json) => Some(tag("not", json)),
                None => None,
            },
            Filter::Equal(lhs, rhs) => pair_to_json("equal", lhs, rhs),
            Filter::NotEqual(lhs, rhs) => pair_to_json("notEqual", lhs, rhs),
        }
    }
}

} // verus!
