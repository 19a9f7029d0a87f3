//! The untyped expression tree that callers may write a query in, before it
//! is turned into a filter over the paths of one record kind.

use crate::identifier::VersionedUri;
use crate::number::Number;
use crate::text::{single, texts};
use vstd::prelude::*;

verus! {

/// A literal of the expression tree.
#[derive(Debug, PartialEq)]
pub enum Literal {
    String(String),
    Float(Number),
    Bool(bool),
    Null,
    List(Vec<Literal>),
    Version(u32),
}

/// A literal, as a mathematical value.
pub enum LiteralModel {
    String(Seq<char>),
    Float(Number),
    Bool(bool),
    Null,
    List(Seq<LiteralModel>),
    Version(u32),
}

impl Literal {
    /// The literal as a mathematical value.
    pub open spec fn model(self) -> LiteralModel
        decreases self,
    {
        match self {
            Literal::String(text) => LiteralModel::String(text@),
            Literal::Float(number) => LiteralModel::Float(number),
            Literal::Bool(value) => LiteralModel::Bool(value),
            Literal::Null => LiteralModel::Null,
            Literal::List(items) => LiteralModel::List(
                Seq::new(
                    items.len() as nat,
                    |i: int|
                        if 0 <= i < items.len() {
                            items[i].model()
                        } else {
                            LiteralModel::Null
                        },
                ),
            ),
            Literal::Version(version) => LiteralModel::Version(version),
        }
    }
}

impl View for Literal {
    type V = LiteralModel;

    open spec fn view(&self) -> LiteralModel {
        self.model()
    }
}

/// The segments that address a field.
#[derive(Debug, PartialEq)]
pub struct Path {
    pub segments: Vec<String>,
}

impl View for Path {
    type V = Seq<Seq<char>>;

    open spec fn view(&self) -> Seq<Seq<char>> {
        texts(self.segments@)
    }
}

/// A node of the expression tree.
#[derive(Debug, PartialEq)]
pub enum Expression {
    Eq(Vec<Expression>),
    Ne(Vec<Expression>),
    All(Vec<Expression>),
    Any(Vec<Expression>),
    Literal(Literal),
    Path(Path),
    Field(Literal),
}

/// A node of the expression tree, as a mathematical value.
pub enum ExpressionTree {
    Eq(Seq<ExpressionTree>),
    Ne(Seq<ExpressionTree>),
    All(Seq<ExpressionTree>),
    Any(Seq<ExpressionTree>),
    Literal(LiteralModel),
    Path(Seq<Seq<char>>),
    Field(LiteralModel),
}

/// The trees of a list of expressions.
pub open spec fn trees(expressions: Seq<Expression>) -> Seq<ExpressionTree> {
    Seq::new(expressions.len(), |i: int| expressions[i]@)
}

impl Expression {
    /// The expression as a mathematical value.
    pub open spec fn model(self) -> ExpressionTree
        decreases self,
    {
        match self {
            Expression::Eq(operands) => ExpressionTree::Eq(Self::models(operands)),
            Expression::Ne(operands) => ExpressionTree::Ne(Self::models(operands)),
            Expression::All(operands) => ExpressionTree::All(Self::models(operands)),
            Expression::Any(operands) => ExpressionTree::Any(Self::models(operands)),
            Expression::Literal(literal) => ExpressionTree::Literal(literal@),
            Expression::Path(path) => ExpressionTree::Path(path@),
            Expression::Field(literal) => ExpressionTree::Field(literal@),
        }
    }

    /// The models of the operands of a node.
    pub open spec fn models(operands: Vec<Expression>) -> Seq<ExpressionTree>
        decreases operands,
    {
        Seq::new(
            operands.len() as nat,
            |i: int|
                if 0 <= i < operands.len() {
                    operands[i].model()
                } else {
                    ExpressionTree::Literal(LiteralModel::Null)
                },
        )
    }

    /// The expression that holds of the latest revision of each record.
    pub fn for_latest_version() -> (expression: Expression)
        ensures
            expression@ == ExpressionTree::Eq(
                seq![
                    ExpressionTree::Path(seq!["version"@]),
                    ExpressionTree::Literal(LiteralModel::String("latest"@)),
                ],
            ),
    {
        let mut operands: Vec<Expression> = Vec::new();
        operands.push(Expression::Path(Path { segments: single("version") }));
        operands.push(Expression::Literal(Literal::String(String::from_str("latest"))));
        assert(operands[0]@ == ExpressionTree::Path(seq!["version"@]));
        assert(operands[1]@ == ExpressionTree::Literal(LiteralModel::String("latest"@)));
        let expression = Expression::Eq(operands);
        assert(expression@->Eq_0 =~= seq![
            ExpressionTree::Path(seq!["version"@]),
            ExpressionTree::Literal(LiteralModel::String("latest"@)),
        ]);
        expression
    }

    /// The expression that holds of the one revision that `uri` identifies.
    pub fn for_versioned_uri(uri: &VersionedUri) -> (expression: Expression)
        ensures
            expression@ == ExpressionTree::Eq(
                seq![
                    ExpressionTree::Path(seq!["versionedUri"@]),
                    ExpressionTree::Literal(LiteralModel::String(uri@.text())),
                ],
            ),
    {
        let mut operands: Vec<Expression> = Vec::new();
        operands.push(Expression::Path(Path { segments: single("versionedUri") }));
        operands.push(Expression::Literal(Literal::String(uri.to_string())));
        assert(operands[0]@ == ExpressionTree::Path(seq!["versionedUri"@]));
        assert(operands[1]@ == ExpressionTree::Literal(LiteralModel::String(uri@.text())));
        let expression = Expression::Eq(operands);
        assert(expression@->Eq_0 =~= seq![
            ExpressionTree::Path(seq!["versionedUri"@]),
            ExpressionTree::Literal(LiteralModel::String(uri@.text())),
        ]);
        expression
    }
}

impl View for Expression {
    type V = ExpressionTree;

    open spec fn view(&self) -> ExpressionTree {
        self.model()
    }
}

/// The model of a node holds the models of its operands.
pub proof fn lemma_operand_models(operands: Vec<Expression>)
    ensures
        Expression::models(operands) == trees(operands@),
{
    assert(Expression::models(operands) =~= trees(operands@));
}

} // verus!
