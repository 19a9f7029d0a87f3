//! Turning the untyped expression tree into a filter over the paths of one
//! record kind.

use crate::expression::{
    lemma_operand_models, trees, Expression, ExpressionTree, Literal, LiteralModel, Path,
};
use crate::filter::{
    lemma_list_model, models, side_model, ExpressionModel, Filter, FilterExpression, FilterModel,
};
use crate::parameter::{Parameter, ParameterModel};
use crate::path::{QueryRecord, RecordPath};
use vstd::prelude::*;

verus! {

/// Why an expression is no filter.
#[derive(Debug, PartialEq)]
pub enum ExpressionConversionError {
    /// The node cannot stand where it was found: a comparison of fewer than
    /// two operands, a bare literal, path or field in place of a condition,
    /// or anything but a literal or a path as an operand.
    Unsupported,
    /// The path names no field of the record kind.
    InvalidPath(Path),
}

/// An [`ExpressionConversionError`], as a mathematical value.
pub enum ConversionErrorModel {
    Unsupported,
    InvalidPath(Seq<Seq<char>>),
}

impl View for ExpressionConversionError {
    type V = ConversionErrorModel;

    open spec fn view(&self) -> ConversionErrorModel {
        match self {
            ExpressionConversionError::Unsupported => ConversionErrorModel::Unsupported,
            ExpressionConversionError::InvalidPath(path) => ConversionErrorModel::InvalidPath(
                path@,
            ),
        }
    }
}

/// The parameter that a literal stands for. Null, lists and versions stand
/// for none.
pub open spec fn parameter_of(literal: LiteralModel) -> Option<ParameterModel> {
    match literal {
        LiteralModel::Bool(value) => Some(ParameterModel::Boolean(value)),
        LiteralModel::String(text) => Some(ParameterModel::Text(text)),
        LiteralModel::Float(number) => Some(ParameterModel::Number(number)),
        _ => None,
    }
}

/// The parameter, or the absence of one, that a literal stands for on one
/// side of a comparison: null stands for the absence, and lists and
/// versions stand for nothing.
pub open spec fn optional_parameter_of(literal: LiteralModel) -> Result<
    Option<ParameterModel>,
    ConversionErrorModel,
> {
    if literal == LiteralModel::Null {
        Ok(None)
    } else {
        match parameter_of(literal) {
            Some(parameter) => Ok(Some(parameter)),
            None => Err(ConversionErrorModel::Unsupported),
        }
    }
}

/// The operand of a comparison that a node stands for: a literal gives a
/// parameter and a path gives the field it names.
pub open spec fn operand_of<P: RecordPath>(tree: ExpressionTree) -> Result<
    ExpressionModel<P>,
    ConversionErrorModel,
> {
    match tree {
        ExpressionTree::Literal(literal) => match parameter_of(literal) {
            Some(parameter) => Ok(ExpressionModel::Parameter(parameter)),
            None => Err(ConversionErrorModel::Unsupported),
        },
        ExpressionTree::Path(segments) => match P::parse(segments) {
            Some(path) => Ok(ExpressionModel::Path(path)),
            None => Err(ConversionErrorModel::InvalidPath(segments)),
        },
        _ => Err(ConversionErrorModel::Unsupported),
    }
}

/// The side of a comparison that a node stands for: the null literal gives
/// the absence of a value, every other node its operand.
pub open spec fn side_of<P: RecordPath>(tree: ExpressionTree) -> Result<
    Option<ExpressionModel<P>>,
    ConversionErrorModel,
> {
    if tree == ExpressionTree::Literal(LiteralModel::Null) {
        Ok(None)
    } else {
        match operand_of::<P>(tree) {
            Ok(operand) => Ok(Some(operand)),
            Err(error) => Err(error),
        }
    }
}

/// The sides that a list of nodes stands for, or the error of the first node
/// that stands for none.
pub open spec fn sides_of<P: RecordPath>(trees: Seq<ExpressionTree>) -> Result<
    Seq<Option<ExpressionModel<P>>>,
    ConversionErrorModel,
>
    decreases trees.len(),
{
    if trees.len() == 0 {
        Ok(Seq::empty())
    } else {
        match sides_of::<P>(trees.drop_last()) {
            Err(error) => Err(error),
            Ok(sides) => match side_of::<P>(trees.last()) {
                Err(error) => Err(error),
                Ok(side) => Ok(sides.push(side)),
            },
        }
    }
}

/// One comparison of two sides.
pub open spec fn comparison<P>(
    negated: bool,
    lhs: Option<ExpressionModel<P>>,
    rhs: Option<ExpressionModel<P>>,
) -> FilterModel<P> {
    if negated {
        FilterModel::NotEqual(lhs, rhs)
    } else {
        FilterModel::Equal(lhs, rhs)
    }
}

/// The filter that a comparison of two or more sides stands for: of two
/// sides, the comparison itself; of more, the conjunction of the
/// comparisons of each side with the one after it.
///
/// Only neighbours are compared. Sides that do not stand next to each other
/// are related through those between them, which says nothing about them
/// where the comparison is for inequality.
pub open spec fn chain<P>(negated: bool, sides: Seq<Option<ExpressionModel<P>>>) -> FilterModel<
    P,
> {
    if sides.len() == 2 {
        comparison(negated, sides[0], sides[1])
    } else {
        FilterModel::All(
            Seq::new(
                (sides.len() - 1) as nat,
                |i: int| comparison(negated, sides[i], sides[i + 1]),
            ),
        )
    }
}

/// The filter that a comparison node stands for.
pub open spec fn comparison_of<P: RecordPath>(
    negated: bool,
    operands: Seq<ExpressionTree>,
) -> Result<FilterModel<P>, ConversionErrorModel> {
    if operands.len() < 2 {
        Err(ConversionErrorModel::Unsupported)
    } else {
        match sides_of::<P>(operands) {
            Ok(sides) => Ok(chain(negated, sides)),
            Err(error) => Err(error),
        }
    }
}

/// The filters that a list of nodes stands for, or the error of the first
/// node that stands for none.
pub open spec fn filters_of<P: RecordPath>(trees: Seq<ExpressionTree>) -> Result<
    Seq<FilterModel<P>>,
    ConversionErrorModel,
>
    decreases trees, 0nat,
{
    if trees.len() == 0 {
        Ok(Seq::empty())
    } else {
        match filters_of::<P>(trees.drop_last()) {
            Err(error) => Err(error),
            Ok(filters) => match filter_of::<P>(trees.last()) {
                Err(error) => Err(error),
                Ok(filter) => Ok(filters.push(filter)),
            },
        }
    }
}

/// The filter that a node stands for.
pub open spec fn filter_of<P: RecordPath>(tree: ExpressionTree) -> Result<
    FilterModel<P>,
    ConversionErrorModel,
>
    decreases tree, 1nat,
{
    match tree {
        ExpressionTree::Eq(operands) => comparison_of::<P>(false, operands),
        ExpressionTree::Ne(operands) => comparison_of::<P>(true, operands),
        ExpressionTree::All(operands) => match filters_of::<P>(operands) {
            Ok(filters) => Ok(FilterModel::All(filters)),
            Err(error) => Err(error),
        },
        ExpressionTree::Any(operands) => match filters_of::<P>(operands) {
            Ok(filters) => Ok(FilterModel::Any(filters)),
            Err(error) => Err(error),
        },
        _ => Err(ConversionErrorModel::Unsupported),
    }
}

/// The models of a list of sides.
pub open spec fn side_models<T: QueryRecord>(sides: Seq<Option<FilterExpression<T>>>) -> Seq<
    Option<ExpressionModel<T::Path>>,
> {
    Seq::new(sides.len(), |i: int| side_model(sides[i]))
}

impl Parameter {
    /// The parameter that a literal stands for, if it stands for one.
    pub fn from_literal(literal: Literal) -> (parameter: Option<Parameter>)
        ensures
            match parameter_of(literal@) {
                Some(model) => parameter is Some && parameter->Some_0@ == model,
                None => parameter is None,
            },
    {
        match literal {
            Literal::Bool(value) => Some(Parameter::Boolean(value)),
            Literal::String(text) => Some(Parameter::Text(text)),
            Literal::Float(number) => Some(Parameter::Number(number)),
            _ => None,
        }
    }
}

impl Parameter {
    /// The parameter, or the absence of one, that a literal stands for on
    /// one side of a comparison.
    pub fn from_optional_literal(literal: Literal) -> (outcome: Result<
        Option<Parameter>,
        ExpressionConversionError,
    >)
        ensures
            match optional_parameter_of(literal@) {
                Ok(Some(model)) => outcome is Ok && outcome->Ok_0 is Some
                    && outcome->Ok_0->Some_0@ == model,
                Ok(None) => outcome is Ok && outcome->Ok_0 is None,
                Err(error) => outcome is Err && outcome->Err_0@ == error,
            },
    {
        match literal {
            Literal::Null => Ok(None),
            other => match Parameter::from_literal(other) {
                Some(parameter) => Ok(Some(parameter)),
                None => Err(ExpressionConversionError::Unsupported),
            },
        }
    }
}

impl<T: QueryRecord> FilterExpression<T> {
    /// The operand of a comparison that an expression stands for.
    pub fn try_from(expression: Expression) -> (outcome: Result<
        FilterExpression<T>,
        ExpressionConversionError,
    >)
        ensures
            match operand_of::<T::Path>(expression@) {
                Ok(operand) => outcome is Ok && outcome->Ok_0@ == operand,
                Err(error) => outcome is Err && outcome->Err_0@ == error,
            },
    {
        match expression {
            Expression::Literal(literal) => match Parameter::from_literal(literal) {
                Some(parameter) => Ok(FilterExpression::Parameter(parameter)),
                None => Err(ExpressionConversionError::Unsupported),
            },
            Expression::Path(path) => {
                match T::Path::from_segments(&path.segments) {
                    Some(found) => Ok(FilterExpression::Path(found)),
                    None => Err(ExpressionConversionError::InvalidPath(path)),
                }
            },
            _ => Err(ExpressionConversionError::Unsupported),
        }
    }

    /// The side of a comparison that an expression stands for: nothing for
    /// the null literal, else its operand.
    pub fn try_from_side(expression: Expression) -> (outcome: Result<
        Option<FilterExpression<T>>,
        ExpressionConversionError,
    >)
        ensures
            match side_of::<T::Path>(expression@) {
                Ok(side) => outcome is Ok && side_model(outcome->Ok_0) == side,
                Err(error) => outcome is Err && outcome->Err_0@ == error,
            },
    {
        match expression {
            Expression::Literal(literal) => match Parameter::from_optional_literal(literal) {
                Ok(Some(parameter)) => Ok(Some(FilterExpression::Parameter(parameter))),
                Ok(None) => Ok(None),
                Err(error) => Err(error),
            },
            other => match Self::try_from(other) {
                Ok(operand) => Ok(Some(operand)),
                Err(error) => Err(error),
            },
        }
    }

    /// The sides that the operands of a comparison stand for.
    fn try_from_sides(operands: Vec<Expression>) -> (outcome: Result<
        Vec<Option<FilterExpression<T>>>,
        ExpressionConversionError,
    >)
        ensures
            match sides_of::<T::Path>(trees(operands@)) {
                Ok(sides) => outcome is Ok && side_models(outcome->Ok_0@) == sides,
                Err(error) => outcome is Err && outcome->Err_0@ == error,
            },
    {
        let ghost all = trees(operands@);
        let mut sides: Vec<Option<FilterExpression<T>>> = Vec::new();
        proof {
            assert(all.take(0) =~= Seq::empty());
            assert(side_models(sides@) =~= Seq::empty());
        }
        for operand in iter: operands
            invariant
                iter.seq() == operands@,
                all == trees(operands@),
                sides.len() == iter.index(),
                sides_of::<T::Path>(all.take(iter.index() as int)) == Ok::<
                    Seq<Option<ExpressionModel<T::Path>>>,
                    ConversionErrorModel,
                >(side_models(sides@)),
        {
            let ghost index = iter.index() as int;
            let ghost earlier = side_models(sides@);
            proof {
                assert(all.take(index + 1).drop_last() =~= all.take(index));
                assert(all.take(index + 1).last() == operand@);
            }
            match Self::try_from_side(operand) {
                Ok(side) => {
                    sides.push(side);
                    assert(side_models(sides@) =~= earlier.push(side_model(side)));
                },
                Err(error) => {
                    proof {
                        lemma_sides_fail::<T::Path>(all, index + 1);
                    }
                    return Err(error);
                },
            }
        }
        proof {
            assert(all.take(operands.len() as int) =~= all);
        }
        Ok(sides)
    }
}

/// Once the sides of the first nodes of a list cannot be had, those of the
/// whole list cannot, for the same reason.
pub proof fn lemma_sides_fail<P: RecordPath>(trees: Seq<ExpressionTree>, prefix: int)
    requires
        0 <= prefix <= trees.len(),
        sides_of::<P>(trees.take(prefix)) is Err,
    ensures
        sides_of::<P>(trees) == sides_of::<P>(trees.take(prefix)),
    decreases trees.len(),
{
    if prefix == trees.len() {
        assert(trees.take(prefix) =~= trees);
    } else {
        assert(trees.drop_last().take(prefix) =~= trees.take(prefix));
        lemma_sides_fail::<P>(trees.drop_last(), prefix);
    }
}

/// Once the filters of the first nodes of a list cannot be had, those of
/// the whole list cannot, for the same reason.
pub proof fn lemma_filters_fail<P: RecordPath>(trees: Seq<ExpressionTree>, prefix: int)
    requires
        0 <= prefix <= trees.len(),
        filters_of::<P>(trees.take(prefix)) is Err,
    ensures
        filters_of::<P>(trees) == filters_of::<P>(trees.take(prefix)),
    decreases trees.len(),
{
    if prefix == trees.len() {
        assert(trees.take(prefix) =~= trees);
    } else {
        assert(trees.drop_last().take(prefix) =~= trees.take(prefix));
        lemma_filters_fail::<P>(trees.drop_last(), prefix);
    }
}

impl<T: QueryRecord> Filter<T> {
    /// One comparison of two sides.
    fn compare(
        negated: bool,
        lhs: Option<FilterExpression<T>>,
        rhs: Option<FilterExpression<T>>,
    ) -> (filter: Filter<T>)
        ensures
            filter@ == comparison(negated, side_model(lhs), side_model(rhs)),
    {
        if negated {
            Filter::NotEqual(lhs, rhs)
        } else {
            Filter::Equal(lhs, rhs)
        }
    }

    /// The filter that a comparison of the given operands stands for.
    fn try_from_comparison(negated: bool, operands: Vec<Expression>) -> (outcome: Result<
        Filter<T>,
        ExpressionConversionError,
    >)
        ensures
            match comparison_of::<T::Path>(negated, trees(operands@)) {
                Ok(filter) => outcome is Ok && outcome->Ok_0@ == filter,
                Err(error) => outcome is Err && outcome->Err_0@ == error,
            },
    {
        if operands.len() < 2 {
            return Err(ExpressionConversionError::Unsupported);
        }
        let sides = match FilterExpression::<T>::try_from_sides(operands) {
            Ok(sides) => sides,
            Err(error) => {
                return Err(error);
            },
        };
        let ghost all = side_models(sides@);
        proof {
            lemma_sides_len::<T::Path>(trees(operands@));
        }
        if sides.len() == 2 {
            return Ok(Self::compare(negated, side_to_owned(&sides[0]), side_to_owned(&sides[1])));
        }
        let mut filters: Vec<Filter<T>> = Vec::new();
        let mut index: usize = 0;
        while index + 1 < sides.len()
            invariant
                index + 1 <= sides.len(),
                filters.len() == index,
                all == side_models(sides@),
                forall|at: int|
                    0 <= at < index ==> filters[at]@ == comparison(negated, all[at], all[at + 1]),
            decreases sides.len() - index,
        {
            filters.push(
                Self::compare(
                    negated,
                    side_to_owned(&sides[index]),
                    side_to_owned(&sides[index + 1]),
                ),
            );
            index += 1;
        }
        proof {
            lemma_list_model(filters);
            assert(models(filters@) =~= chain(negated, all)->All_0);
        }
        Ok(Filter::All(filters))
    }

    /// The filters that the operands of a conjunction or disjunction stand
    /// for.
    fn try_from_all(operands: Vec<Expression>) -> (outcome: Result<
        Vec<Filter<T>>,
        ExpressionConversionError,
    >)
        ensures
            match filters_of::<T::Path>(Expression::models(operands)) {
                Ok(filters) => outcome is Ok && models(outcome->Ok_0@) == filters,
                Err(error) => outcome is Err && outcome->Err_0@ == error,
            },
        decreases operands, 0nat,
    {
        let ghost all = trees(operands@);
        proof {
            lemma_operand_models(operands);
        }
        let mut filters: Vec<Filter<T>> = Vec::new();
        proof {
            assert(all.take(0) =~= Seq::empty());
            assert(models(filters@) =~= Seq::empty());
        }
        for operand in iter: operands
            invariant
                iter.seq() == operands@,
                all == trees(operands@),
                all == Expression::models(operands),
                filters.len() == iter.index(),
                filters_of::<T::Path>(all.take(iter.index() as int)) == Ok::<
                    Seq<FilterModel<T::Path>>,
                    ConversionErrorModel,
                >(models(filters@)),
        {
            let ghost index = iter.index() as int;
            let ghost earlier = models(filters@);
            proof {
                assert(all.take(index + 1).drop_last() =~= all.take(index));
                assert(all.take(index + 1).last() == operand@);
            }
            match Self::try_from(operand) {
                Ok(filter) => {
                    filters.push(filter);
                    assert(models(filters@) =~= earlier.push(filter@));
                },
                Err(error) => {
                    proof {
                        assert(filters_of::<T::Path>(all.take(index + 1)) == Err::<
                            Seq<FilterModel<T::Path>>,
                            ConversionErrorModel,
                        >(error@));
                        lemma_filters_fail::<T::Path>(all, index + 1);
                    }
                    return Err(error);
                },
            }
        }
        proof {
            assert(all.take(operands.len() as int) =~= all);
        }
        Ok(filters)
    }

    /// Turns an expression into a filter over the paths of `T`.
    ///
    /// A comparison of two operands becomes one comparison, and one of more
    /// operands the conjunction of the comparisons of each operand with the
    /// next. Conjunctions and disjunctions are converted member by member.
    /// Everything else is refused.
    pub fn try_from(expression: Expression) -> (outcome: Result<
        Filter<T>,
        ExpressionConversionError,
    >)
        ensures
            match filter_of::<T::Path>(expression@) {
                Ok(filter) => outcome is Ok && outcome->Ok_0@ == filter,
                Err(error) => outcome is Err && outcome->Err_0@ == error,
            },
        decreases expression, 1nat,
    {
        match expression {
            Expression::Eq(operands) => {
                proof {
                    lemma_operand_models(operands);
                }
                Self::try_from_comparison(false, operands)
            },
            Expression::Ne(operands) => {
                proof {
                    lemma_operand_models(operands);
                }
                Self::try_from_comparison(true, operands)
            },
            Expression::All(operands) => match Self::try_from_all(operands) {
                Ok(filters) => {
                    proof {
                        lemma_list_model(filters);
                    }
                    Ok(Filter::All(filters))
                },
                Err(error) => Err(error),
            },
            Expression::Any(operands) => match Self::try_from_all(operands) {
                Ok(filters) => {
                    proof {
                        lemma_list_model(filters);
                    }
                    Ok(Filter::Any(filters))
                },
                Err(error) => Err(error),
            },
            _ => Err(ExpressionConversionError::Unsupported),
        }
    }
}

/// A list of nodes has as many sides as nodes.
pub proof fn lemma_sides_len<P: RecordPath>(trees: Seq<ExpressionTree>)
    ensures
        sides_of::<P>(trees) is Ok ==> sides_of::<P>(trees)->Ok_0.len() == trees.len(),
    decreases trees.len(),
{
    if trees.len() > 0 {
        lemma_sides_len::<P>(trees.drop_last());
    }
}

/// An independent copy of one side of a comparison.
fn side_to_owned<T: QueryRecord>(side: &Option<FilterExpression<T>>) -> (copy: Option<
    FilterExpression<T>,
>)
    ensures
        side_model(copy) == side_model(*side),
{
    match side {
        Some(expression) => Some(expression.to_owned()),
        None => None,
    }
}

} // verus!
