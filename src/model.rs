//! The query tree, the record and the type registry, with their views.
use std::collections::HashMap;
use vstd::prelude::*;

verus! {

/// How the text of a field is interpreted when compared.
#[derive(Clone, Copy, Debug, PartialEq, Eq, Structural)]
pub enum PropertyType {
    Int,
    Float,
    Select,
    String,
}

impl DeepView for PropertyType {
    type V = PropertyType;

    open spec fn deep_view(&self) -> PropertyType {
        *self
    }
}

/// The outcome of comparing two numbers; `Unordered` where one of them is not a number
/// (a floating-point NaN).
#[derive(Clone, Copy, Debug, PartialEq, Eq, Structural)]
pub enum NumOrder {
    Less,
    Equal,
    Greater,
    Unordered,
}

/// A leaf of the query tree: compares a field of the record with a literal value.
#[derive(Clone, Debug)]
pub struct Rule {
    pub field: String,
    pub operator: String,
    pub value_source: String,
    pub value: String,
}

/// An inner node of the query tree: combines its children with `combinator`, and
/// negates the combination where `not` is set.
#[derive(Debug)]
pub struct RuleGroup {
    pub rules: Vec<RuleOrGroup>,
    pub combinator: String,
    pub not: bool,
}

/// A child of a group: a rule or a nested group.
#[derive(Debug)]
pub enum RuleOrGroup {
    Rule(Rule),
    Group(RuleGroup),
}

/// The root of the query tree: a group without negation.
#[derive(Debug)]
pub struct Query {
    pub combinator: String,
    pub rules: Vec<RuleOrGroup>,
}

/// A record: the text value of each of its fields.
pub struct BusinessObject {
    pub properties: HashMap<String, String>,
}

/// The type registry: the declared type of each known field.
pub struct BusinessObjectPropertyTypes {
    pub types: HashMap<String, PropertyType>,
}

impl View for BusinessObject {
    type V = Map<Seq<char>, Seq<char>>;

    open spec fn view(&self) -> Map<Seq<char>, Seq<char>> {
        self.properties.deep_view()
    }
}

impl View for BusinessObjectPropertyTypes {
    type V = Map<Seq<char>, PropertyType>;

    open spec fn view(&self) -> Map<Seq<char>, PropertyType> {
        self.types.deep_view()
    }
}

/// The kinds of failure of an evaluation.
#[derive(Clone, Copy, Debug, PartialEq, Eq, Structural)]
pub enum ErrorKind {
    FieldNotFound,
    PropertyTypeNotFound,
    InvalidIntegerValue,
    InvalidFloatValue,
    UnsupportedOperator,
    InvalidCombinator,
    UnknownPropertyType,
    Malformed,
}

/// A failure, with the text that caused it: the field name for a missing field, a
/// missing type or a value that does not parse; the operator, the combinator or the
/// type name that is not recognised; the decoder's message for malformed input.
#[derive(Clone, Debug, PartialEq, Eq)]
pub struct EvalError {
    pub kind: ErrorKind,
    pub detail: String,
}

impl View for EvalError {
    type V = (ErrorKind, Seq<char>);

    open spec fn view(&self) -> (ErrorKind, Seq<char>) {
        (self.kind, self.detail@)
    }
}

/// The text that stands before the detail in the message of a failure of this kind.
pub open spec fn message_prefix(kind: ErrorKind) -> &'static str {
    match kind {
        ErrorKind::FieldNotFound => "Field ",
        ErrorKind::PropertyTypeNotFound => "Property type for field ",
        ErrorKind::InvalidIntegerValue => "Invalid integer value for field ",
        ErrorKind::InvalidFloatValue => "Invalid float value for field ",
        ErrorKind::UnsupportedOperator => "Unsupported operator: ",
        ErrorKind::InvalidCombinator => "Invalid combinator: ",
        ErrorKind::UnknownPropertyType => "Unknown property type: ",
        ErrorKind::Malformed => "Malformed input: ",
    }
}

/// The text that stands after the detail in the message of a failure of this kind.
pub open spec fn message_suffix(kind: ErrorKind) -> &'static str {
    match kind {
        ErrorKind::FieldNotFound => " not found in business object",
        ErrorKind::PropertyTypeNotFound => " not found",
        _ => "",
    }
}

impl EvalError {
    /// A sentence that describes the failure and names what caused it.
    pub fn message(&self) -> (r: String)
        ensures
            r@ == message_prefix(self.kind)@ + self.detail@ + message_suffix(self.kind)@,
    {
        let (prefix, suffix) = match self.kind {
            ErrorKind::FieldNotFound => ("Field ", " not found in business object"),
            ErrorKind::PropertyTypeNotFound => ("Property type for field ", " not found"),
            ErrorKind::InvalidIntegerValue => ("Invalid integer value for field ", ""),
            ErrorKind::InvalidFloatValue => ("Invalid float value for field ", ""),
            ErrorKind::UnsupportedOperator => ("Unsupported operator: ", ""),
            ErrorKind::InvalidCombinator => ("Invalid combinator: ", ""),
            ErrorKind::UnknownPropertyType => ("Unknown property type: ", ""),
            ErrorKind::Malformed => ("Malformed input: ", ""),
        };
        let mut text = String::from_str(prefix);
        text.append(self.detail.as_str());
        text.append(suffix);
        text
    }
}

/// The view of an evaluation result.
pub open spec fn result_view(r: Result<bool, EvalError>) -> Result<bool, (ErrorKind, Seq<char>)> {
    match r {
        Ok(b) => Ok(b),
        Err(e) => Err(e@),
    }
}

/// Relies on `HashMap::get`: it returns the value stored under the key equal to `k`,
/// and nothing where no key is equal to it.
#[verifier::external_body]
pub(crate) fn map_get<'a, V: DeepView>(m: &'a HashMap<String, V>, k: &str) -> (r: Option<&'a V>)
    ensures
        r is Some == m.deep_view().contains_key(k@),
        r matches Some(v) ==> v.deep_view() == m.deep_view()[k@],
{
    m.get(k)
}

/// Relies on `HashMap::insert`: the value is stored under `k`, replacing the value
/// stored under an equal key, and every other entry stays.
#[verifier::external_body]
pub(crate) fn map_insert<V: DeepView>(m: &mut HashMap<String, V>, k: String, v: V)
    ensures
        final(m).deep_view() == old(m).deep_view().insert(k@, v.deep_view()),
{
    m.insert(k, v);
}

} // verus!
