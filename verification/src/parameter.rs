//! Parameters of a filter and their coercion to the type a path expects.

use crate::number::{lemma_rounded_range, Number};
use crate::text::text_is;
use std::str::FromStr;
use vstd::prelude::*;

verus! {

/// The type of value that a queryable path is compared with.
#[derive(Clone, Copy, Debug, PartialEq, Eq, Structural)]
pub enum ParameterType {
    Boolean,
    Number,
    UnsignedInteger,
    Text,
    Uuid,
    BaseUri,
    VersionedUri,
    Timestamp,
    Any,
}

impl ParameterType {
    /// The name of the type in messages.
    pub open spec fn name_spec(self) -> Seq<char> {
        match self {
            ParameterType::Boolean => "boolean"@,
            ParameterType::Number => "number"@,
            ParameterType::UnsignedInteger => "unsigned integer"@,
            ParameterType::Text => "text"@,
            ParameterType::Uuid => "UUID"@,
            ParameterType::BaseUri => "base URI"@,
            ParameterType::VersionedUri => "versioned URI"@,
            ParameterType::Timestamp => "timestamp"@,
            ParameterType::Any => "any"@,
        }
    }

    /// The name of the type in messages.
    pub fn name(&self) -> (name: &'static str)
        ensures
            name@ == self.name_spec(),
    {
        match self {
            ParameterType::Boolean => "boolean",
            ParameterType::Number => "number",
            ParameterType::UnsignedInteger => "unsigned integer",
            ParameterType::Text => "text",
            ParameterType::Uuid => "UUID",
            ParameterType::BaseUri => "base URI",
            ParameterType::VersionedUri => "versioned URI",
            ParameterType::Timestamp => "timestamp",
            ParameterType::Any => "any",
        }
    }
}

/// The 128-bit value of the UUID that `text` spells, `None` where `text`
/// spells none. It stands for the answer of the `uuid` crate's parser.
pub uninterp spec fn uuid_from_text(text: Seq<char>) -> Option<u128>;

/// A scalar that a path is compared with.
///
/// `Boolean`, `Number` and `Text` arrive from outside; `Uuid` and
/// `SignedInteger` are produced by coercion or by the library's own
/// constructors.
#[derive(Debug, PartialEq)]
pub enum Parameter {
    Boolean(bool),
    Number(Number),
    Text(String),
    Uuid(u128),
    SignedInteger(i64),
}

/// What a [`Parameter`] holds, as a mathematical value.
pub enum ParameterModel {
    Boolean(bool),
    Number(Number),
    Text(Seq<char>),
    Uuid(u128),
    SignedInteger(i64),
}

impl View for Parameter {
    type V = ParameterModel;

    open spec fn view(&self) -> ParameterModel {
        match self {
            Parameter::Boolean(value) => ParameterModel::Boolean(*value),
            Parameter::Number(value) => ParameterModel::Number(*value),
            Parameter::Text(value) => ParameterModel::Text(value@),
            Parameter::Uuid(value) => ParameterModel::Uuid(*value),
            Parameter::SignedInteger(value) => ParameterModel::SignedInteger(*value),
        }
    }
}

/// A parameter that cannot be brought to the type its path expects.
#[derive(Debug, PartialEq)]
#[must_use]
pub struct ParameterConversionError {
    actual: Parameter,
    expected: ParameterType,
}

/// What a [`ParameterConversionError`] reports, as a mathematical value.
pub struct ParameterConversionErrorModel {
    pub actual: ParameterModel,
    pub expected: ParameterType,
}

impl View for ParameterConversionError {
    type V = ParameterConversionErrorModel;

    closed spec fn view(&self) -> ParameterConversionErrorModel {
        ParameterConversionErrorModel { actual: self.actual@, expected: self.expected }
    }
}

impl ParameterConversionError {
    /// What the error says, given how the offending parameter reads.
    pub open spec fn message_spec(expected: ParameterType, actual: Seq<char>) -> Seq<char> {
        "could not convert `"@ + actual + "` to "@ + expected.name_spec()
    }

    /// What the error says. The caller states how the offending parameter
    /// reads.
    pub fn message(&self, actual: &str) -> (message: String)
        ensures
            message@ == Self::message_spec(self@.expected, actual@),
    {
        let mut message = "could not convert `".to_owned();
        message.append(actual);
        message.append("` to ");
        message.append(self.expected.name());
        message
    }

    /// The offending parameter, as it was before the attempt.
    pub fn actual(&self) -> (actual: &Parameter)
        ensures
            actual@ == self@.actual,
    {
        &self.actual
    }

    /// The type that the path asked for.
    pub fn expected(&self) -> (expected: ParameterType)
        ensures
            expected == self@.expected,
    {
        self.expected
    }
}

impl ParameterModel {
    /// Whether coercion to `expected` keeps the parameter as it is.
    pub open spec fn kept_by(self, expected: ParameterType) -> bool {
        match (self, expected) {
            (_, ParameterType::Any) => true,
            (_, ParameterType::Timestamp) => true,
            (ParameterModel::Boolean(_), ParameterType::Boolean) => true,
            (ParameterModel::Number(_), ParameterType::Number) => true,
            (ParameterModel::Text(_), ParameterType::Text) => true,
            (ParameterModel::Text(_), ParameterType::BaseUri) => true,
            (ParameterModel::Text(_), ParameterType::VersionedUri) => true,
            (ParameterModel::Uuid(_), ParameterType::Uuid) => true,
            (ParameterModel::SignedInteger(value), ParameterType::UnsignedInteger) => value >= 0,
            _ => false,
        }
    }

    /// The outcome of coercing the parameter to `expected`.
    ///
    /// A parameter that already fits stays, and so does what an earlier
    /// coercion has made: a UUID where a UUID is expected and an integer
    /// that is not negative where an unsigned integer is expected. A text
    /// becomes the UUID it spells; a number becomes its rounding where that
    /// is not negative; every other pairing is an error that carries the
    /// parameter and the expected type.
    pub open spec fn coerced(self, expected: ParameterType) -> Result<
        ParameterModel,
        ParameterConversionErrorModel,
    > {
        let failure = Err(ParameterConversionErrorModel { actual: self, expected });
        if self.kept_by(expected) {
            Ok(self)
        } else {
            match (self, expected) {
                (ParameterModel::Text(text), ParameterType::Uuid) => match uuid_from_text(text) {
                    Some(value) => Ok(ParameterModel::Uuid(value)),
                    None => failure,
                },
                (ParameterModel::Number(number), ParameterType::UnsignedInteger) => if number.rounded()
                    < 0 {
                    failure
                } else {
                    Ok(ParameterModel::SignedInteger(number.rounded() as i64))
                },
                _ => failure,
            }
        }
    }
}

/// Calls `uuid::Uuid::from_str` and hands back the UUID as its 128-bit
/// value. The contract only names the parser's answer: the same text always
/// gives the same answer, and nothing is claimed about which texts parse.
#[verifier::external_body]
pub(crate) fn parse_uuid(text: &str) -> (parsed: Option<u128>)
    ensures
        parsed == uuid_from_text(text@),
{
    match uuid::Uuid::from_str(text) {
        Ok(value) => Some(value.as_u128()),
        Err(_) => None,
    }
}

impl Parameter {
    /// An independent copy of the parameter.
    pub fn to_owned(&self) -> (copy: Parameter)
        ensures
            copy@ == self@,
    {
        match self {
            Parameter::Boolean(value) => Parameter::Boolean(*value),
            Parameter::Number(value) => Parameter::Number(*value),
            Parameter::Text(value) => Parameter::Text(value.clone()),
            Parameter::Uuid(value) => Parameter::Uuid(*value),
            Parameter::SignedInteger(value) => Parameter::SignedInteger(*value),
        }
    }

    /// Whether two parameters hold the same value.
    pub fn same(&self, other: &Parameter) -> (same: bool)
        ensures
            same == (self@ == other@),
    {
        match (self, other) {
            (Parameter::Boolean(first), Parameter::Boolean(second)) => *first == *second,
            (Parameter::Number(first), Parameter::Number(second)) => *first == *second,
            (Parameter::Text(first), Parameter::Text(second)) => text_is(
                first.as_str(),
                second.as_str(),
            ),
            (Parameter::Uuid(first), Parameter::Uuid(second)) => *first == *second,
            (Parameter::SignedInteger(first), Parameter::SignedInteger(second)) => *first
                == *second,
            _ => false,
        }
    }

    /// The parameter that a text becomes once the UUID parser has answered:
    /// the UUID where it found one, else an error that carries the text.
    pub fn from_parsed_uuid(text: String, parsed: Option<u128>) -> (outcome: Result<
        Parameter,
        ParameterConversionError,
    >)
        ensures
            match parsed {
                Some(value) => outcome is Ok && outcome->Ok_0@ == ParameterModel::Uuid(value),
                None => outcome is Err && outcome->Err_0@ == (ParameterConversionErrorModel {
                    actual: ParameterModel::Text(text@),
                    expected: ParameterType::Uuid,
                }),
            },
    {
        match parsed {
            Some(value) => Ok(Parameter::Uuid(value)),
            None => Err(
                ParameterConversionError {
                    actual: Parameter::Text(text),
                    expected: ParameterType::Uuid,
                },
            ),
        }
    }

    /// The parameter that a number becomes when an unsigned integer is
    /// expected: its rounding, unless that is negative.
    pub fn from_rounded_number(number: Number) -> (outcome: Result<
        Parameter,
        ParameterConversionError,
    >)
        ensures
            number.rounded() >= 0 ==> outcome is Ok && outcome->Ok_0@
                == ParameterModel::SignedInteger(number.rounded() as i64),
            number.rounded() < 0 ==> outcome is Err && outcome->Err_0@
                == (ParameterConversionErrorModel {
                actual: ParameterModel::Number(number),
                expected: ParameterType::UnsignedInteger,
            }),
    {
        let rounded = number.round();
        if rounded < 0 {
            Err(
                ParameterConversionError {
                    actual: Parameter::Number(number),
                    expected: ParameterType::UnsignedInteger,
                },
            )
        } else {
            Ok(Parameter::SignedInteger(rounded))
        }
    }

    /// Whether coercion to `expected` keeps the parameter as it is.
    pub fn is_kept_by(&self, expected: ParameterType) -> (kept: bool)
        ensures
            kept == self@.kept_by(expected),
    {
        match (self, expected) {
            (_, ParameterType::Any) => true,
            (_, ParameterType::Timestamp) => true,
            (Parameter::Boolean(_), ParameterType::Boolean) => true,
            (Parameter::Number(_), ParameterType::Number) => true,
            (Parameter::Text(_), ParameterType::Text) => true,
            (Parameter::Text(_), ParameterType::BaseUri) => true,
            (Parameter::Text(_), ParameterType::VersionedUri) => true,
            (Parameter::Uuid(_), ParameterType::Uuid) => true,
            (Parameter::SignedInteger(value), ParameterType::UnsignedInteger) => *value >= 0,
            _ => false,
        }
    }

    /// Brings the parameter to the type that a path expects.
    ///
    /// On success the parameter holds the coerced value; on failure it is
    /// left as it was and the error carries a copy of it.
    pub fn convert_to_parameter_type(&mut self, expected: ParameterType) -> (outcome: Result<
        (),
        ParameterConversionError,
    >)
        ensures
            match old(self)@.coerced(expected) {
                Ok(coerced) => outcome is Ok && final(self)@ == coerced,
                Err(error) => outcome is Err && outcome->Err_0@ == error && final(self)@ == old(
                    self,
                )@,
            },
    {
        if self.is_kept_by(expected) {
            return Ok(());
        }
        let converted = match (&*self, expected) {
            (Parameter::Text(text), ParameterType::Uuid) => {
                let parsed = parse_uuid(text.as_str());
                Parameter::from_parsed_uuid(text.clone(), parsed)
            },
            (Parameter::Number(number), ParameterType::UnsignedInteger) => {
                Parameter::from_rounded_number(*number)
            },
            _ => Err(ParameterConversionError { actual: self.to_owned(), expected }),
        };
        match converted {
            Ok(parameter) => {
                *self = parameter;
                Ok(())
            },
            Err(error) => Err(error),
        }
    }
}

/// A number that rounds to a non-negative integer coerces to it when an
/// unsigned integer is expected, and one that rounds below zero is refused.
/// A negative number nearer to zero than one half rounds to zero and is
/// therefore accepted.
pub proof fn lemma_number_to_unsigned_integer(number: Number)
    ensures
        !number.sign_negative() ==> number.rounded() >= 0,
        number.rounded() >= 0 ==> ParameterModel::Number(number).coerced(
            ParameterType::UnsignedInteger,
        ) == Ok::<ParameterModel, ParameterConversionErrorModel>(
            ParameterModel::SignedInteger(number.rounded() as i64),
        ),
        number.rounded() < 0 ==> ParameterModel::Number(number).coerced(
            ParameterType::UnsignedInteger,
        ) is Err,
{
    lemma_rounded_range(number);
}

/// What coercion makes of a parameter, coercion keeps: a second coercion to
/// the same type succeeds and changes nothing.
pub proof fn lemma_coerced_is_kept(parameter: ParameterModel, expected: ParameterType)
    requires
        parameter.coerced(expected) is Ok,
    ensures
        parameter.coerced(expected)->Ok_0.kept_by(expected),
        parameter.coerced(expected)->Ok_0.coerced(expected) == parameter.coerced(expected),
{
    if let ParameterModel::Number(number) = parameter {
        lemma_rounded_range(number);
    }
}

/// A text coerces to a UUID exactly when it spells one, and then to the UUID
/// it spells.
pub proof fn lemma_text_to_uuid(text: Seq<char>)
    ensures
        ParameterModel::Text(text).coerced(ParameterType::Uuid) is Ok <==> uuid_from_text(text)
            is Some,
        uuid_from_text(text) is Some ==> ParameterModel::Text(text).coerced(ParameterType::Uuid)
            == Ok::<ParameterModel, ParameterConversionErrorModel>(
            ParameterModel::Uuid(uuid_from_text(text)->Some_0),
        ),
{
}

} // verus!
