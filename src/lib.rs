//! Evaluation of nested boolean rule queries against records of typed text values.
//!
//! A query is a tree: its leaves are rules that compare one field of a record with
//! a literal, its inner nodes are groups that combine their children by `"and"` or
//! `"or"` and may negate the combination. A type registry says how each field's
//! text is compared: as a 32-bit integer, as a float, or as text without regard to
//! ASCII case.
use vstd::prelude::*;

pub mod engine;
pub mod laws;
pub mod model;
pub mod registry;
pub mod text;

pub use engine::{evaluate_rule, evaluate_rules};
pub use model::{
    BusinessObject, BusinessObjectPropertyTypes, ErrorKind, EvalError, NumOrder, PropertyType,
    Query, Rule, RuleGroup, RuleOrGroup,
};
pub use registry::{deserialize_property_types, property_type_from_name, property_types_from_entries};

verus! {

} // verus!
