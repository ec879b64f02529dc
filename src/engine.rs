//! Evaluation of a query tree against a record and a type registry.
//!
//! Floating-point numbers do not enter this crate: the caller supplies the
//! comparison of two float texts, a function that gives `None` where either text
//! is not a float and otherwise their `NumOrder`. Everything else, from the field
//! lookups to the combination of a group's children, is decided here.
use crate::model::{
    map_get, result_view, BusinessObject, BusinessObjectPropertyTypes, ErrorKind, EvalError,
    NumOrder, PropertyType, Rule, RuleOrGroup,
};
use crate::text::{eq_ignore_ascii_case, parse_i32, parse_i32_spec, same_text, text_eq_ignore_ascii_case};
use vstd::prelude::*;

verus! {

/// What the caller's float comparison is taken to compute: a comparison of two
/// float texts, `None` where either of them does not parse.
pub type FloatCompare = spec_fn(Seq<char>, Seq<char>) -> Option<NumOrder>;

/// `f` computes `fo`: whatever it returns on two texts is `fo` of those texts.
pub open spec fn computes<F: Fn(&str, &str) -> Option<NumOrder>>(f: F, fo: FloatCompare) -> bool {
    forall|a: &str, b: &str, o: Option<NumOrder>| #[trigger]
        f.ensures((a, b), o) ==> o == fo(a@, b@)
}

/// `f` may be called on any two texts.
pub open spec fn callable<F: Fn(&str, &str) -> Option<NumOrder>>(f: F) -> bool {
    forall|a: &str, b: &str| #[trigger] f.requires((a, b))
}

/// The operator `=`.
pub open spec fn op_eq() -> Seq<char> {
    seq!['=']
}

/// The operator `!=`.
pub open spec fn op_ne() -> Seq<char> {
    seq!['!', '=']
}

/// The operator `<=`.
pub open spec fn op_le() -> Seq<char> {
    seq!['<', '=']
}

/// The operator `>=`.
pub open spec fn op_ge() -> Seq<char> {
    seq!['>', '=']
}

/// The combinator `and`.
pub open spec fn comb_and() -> Seq<char> {
    seq!['a', 'n', 'd']
}

/// The combinator `or`.
pub open spec fn comb_or() -> Seq<char> {
    seq!['o', 'r']
}

/// The order of two integers.
pub open spec fn int_order(a: int, b: int) -> NumOrder {
    if a < b {
        NumOrder::Less
    } else if a == b {
        NumOrder::Equal
    } else {
        NumOrder::Greater
    }
}

/// A numeric operator applied to the order of its operands.
pub open spec fn numeric_outcome(op: Seq<char>, o: NumOrder) -> Result<bool, (ErrorKind, Seq<char>)> {
    if op == op_eq() {
        Ok(o == NumOrder::Equal)
    } else if op == op_ne() {
        Ok(o != NumOrder::Equal)
    } else if op == op_le() {
        Ok(o == NumOrder::Less || o == NumOrder::Equal)
    } else if op == op_ge() {
        Ok(o == NumOrder::Greater || o == NumOrder::Equal)
    } else {
        Err((ErrorKind::UnsupportedOperator, op))
    }
}

/// A text operator applied to two texts, compared without regard to ASCII case.
pub open spec fn text_outcome(op: Seq<char>, a: Seq<char>, b: Seq<char>) -> Result<bool, (ErrorKind, Seq<char>)> {
    if op == op_eq() {
        Ok(text_eq_ignore_ascii_case(a, b))
    } else if op == op_ne() {
        Ok(!text_eq_ignore_ascii_case(a, b))
    } else {
        Err((ErrorKind::UnsupportedOperator, op))
    }
}

/// The outcome of one rule on a record and a registry.
pub open spec fn rule_outcome(
    record: Map<Seq<char>, Seq<char>>,
    types: Map<Seq<char>, PropertyType>,
    rule: Rule,
    fo: FloatCompare,
) -> Result<bool, (ErrorKind, Seq<char>)> {
    let field = rule.field@;
    let op = rule.operator@;
    if !record.contains_key(field) {
        Err((ErrorKind::FieldNotFound, field))
    } else if !types.contains_key(field) {
        Err((ErrorKind::PropertyTypeNotFound, field))
    } else {
        let lhs = record[field];
        let rhs = rule.value@;
        match types[field] {
            PropertyType::Int => match (parse_i32_spec(lhs), parse_i32_spec(rhs)) {
                (Some(a), Some(b)) => numeric_outcome(op, int_order(a, b)),
                _ => Err((ErrorKind::InvalidIntegerValue, field)),
            },
            PropertyType::Float => match fo(lhs, rhs) {
                Some(o) => numeric_outcome(op, o),
                None => Err((ErrorKind::InvalidFloatValue, field)),
            },
            _ => text_outcome(op, lhs, rhs),
        }
    }
}

fn error(kind: ErrorKind, detail: &str) -> (r: EvalError)
    ensures
        r@ == (kind, detail@),
{
    EvalError { kind, detail: detail.to_string() }
}

/// Applies a numeric operator to the order of its operands.
fn apply_numeric(op: &str, o: NumOrder) -> (r: Result<bool, EvalError>)
    ensures
        result_view(r) == numeric_outcome(op@, o),
{
    proof {
        reveal_strlit("=");
        reveal_strlit("!=");
        reveal_strlit("<=");
        reveal_strlit(">=");
        assert("="@ =~= op_eq());
        assert("!="@ =~= op_ne());
        assert("<="@ =~= op_le());
        assert(">="@ =~= op_ge());
    }
    if same_text(op, "=") {
        Ok(o == NumOrder::Equal)
    } else if same_text(op, "!=") {
        Ok(o != NumOrder::Equal)
    } else if same_text(op, "<=") {
        Ok(o == NumOrder::Less || o == NumOrder::Equal)
    } else if same_text(op, ">=") {
        Ok(o == NumOrder::Greater || o == NumOrder::Equal)
    } else {
        Err(error(ErrorKind::UnsupportedOperator, op))
    }
}

/// Applies a text operator to two texts.
fn apply_text(op: &str, a: &str, b: &str) -> (r: Result<bool, EvalError>)
    ensures
        result_view(r) == text_outcome(op@, a@, b@),
{
    proof {
        reveal_strlit("=");
        reveal_strlit("!=");
        assert("="@ =~= op_eq());
        assert("!="@ =~= op_ne());
    }
    if same_text(op, "=") {
        Ok(eq_ignore_ascii_case(a, b))
    } else if same_text(op, "!=") {
        Ok(!eq_ignore_ascii_case(a, b))
    } else {
        Err(error(ErrorKind::UnsupportedOperator, op))
    }
}

fn int_order_exec(a: i32, b: i32) -> (r: NumOrder)
    ensures
        r == int_order(a as int, b as int),
{
    if a < b {
        NumOrder::Less
    } else if a == b {
        NumOrder::Equal
    } else {
        NumOrder::Greater
    }
}

/// Evaluates one rule: looks the field up in the record, then in the registry, and
/// compares the record's value with the rule's value as the field's type says.
pub fn evaluate_rule<F: Fn(&str, &str) -> Option<NumOrder>>(
    business_object: &BusinessObject,
    rule: &Rule,
    property_types: &BusinessObjectPropertyTypes,
    compare_floats: &F,
) -> (r: Result<bool, EvalError>)
    requires
        callable(*compare_floats),
    ensures
        forall|fo: FloatCompare| #[trigger]
            computes(*compare_floats, fo) ==> result_view(r) == rule_outcome(
                business_object@,
                property_types@,
                *rule,
                fo,
            ),
        rule_free_of_floats(property_types@, *rule) ==> forall|fo: FloatCompare|
            result_view(r) == #[trigger] rule_outcome(business_object@, property_types@, *rule, fo),
{
    let field = rule.field.as_str();
    let lhs = match map_get(&business_object.properties, field) {
        Some(v) => v.as_str(),
        None => {
            return Err(error(ErrorKind::FieldNotFound, field));
        },
    };
    let property_type = match map_get(&property_types.types, field) {
        Some(t) => *t,
        None => {
            return Err(error(ErrorKind::PropertyTypeNotFound, field));
        },
    };
    let rhs = rule.value.as_str();
    let op = rule.operator.as_str();
    match property_type {
        PropertyType::Int => {
            let a = match parse_i32(lhs) {
                Some(a) => a,
                None => {
                    return Err(error(ErrorKind::InvalidIntegerValue, field));
                },
            };
            let b = match parse_i32(rhs) {
                Some(b) => b,
                None => {
                    return Err(error(ErrorKind::InvalidIntegerValue, field));
                },
            };
            apply_numeric(op, int_order_exec(a, b))
        },
        PropertyType::Float => {
            let o = compare_floats(lhs, rhs);
            match o {
                Some(o) => apply_numeric(op, o),
                None => Err(error(ErrorKind::InvalidFloatValue, field)),
            }
        },
        PropertyType::Select => apply_text(op, lhs, rhs),
        PropertyType::String => apply_text(op, lhs, rhs),
    }
}

/// The outcome of one child of a group: a rule's comparison, or a nested group's
/// combination, negated where the group says `not`.
pub open spec fn node_outcome(
    record: Map<Seq<char>, Seq<char>>,
    types: Map<Seq<char>, PropertyType>,
    node: RuleOrGroup,
    fo: FloatCompare,
) -> Result<bool, (ErrorKind, Seq<char>)>
    decreases node, 0int,
{
    match node {
        RuleOrGroup::Rule(rule) => rule_outcome(record, types, rule, fo),
        RuleOrGroup::Group(group) => match children_outcome(
            record,
            types,
            group.rules@,
            group.rules@.len() as int,
            fo,
        ) {
            Ok(values) => match combine(values, group.combinator@) {
                Ok(b) => Ok(if group.not {
                    !b
                } else {
                    b
                }),
                Err(e) => Err(e),
            },
            Err(e) => Err(e),
        },
    }
}

/// The outcomes of the first `k` children, in order; the first failure among them
/// where there is one.
pub open spec fn children_outcome(
    record: Map<Seq<char>, Seq<char>>,
    types: Map<Seq<char>, PropertyType>,
    nodes: Seq<RuleOrGroup>,
    k: int,
    fo: FloatCompare,
) -> Result<Seq<bool>, (ErrorKind, Seq<char>)>
    decreases nodes, k,
{
    if k <= 0 || k > nodes.len() {
        Ok(seq![])
    } else {
        match children_outcome(record, types, nodes, k - 1, fo) {
            Ok(values) => match node_outcome(record, types, nodes[k - 1], fo) {
                Ok(b) => Ok(values.push(b)),
                Err(e) => Err(e),
            },
            Err(e) => Err(e),
        }
    }
}

/// The rule does not compare as floats: its field is not declared `Float`.
pub open spec fn rule_free_of_floats(types: Map<Seq<char>, PropertyType>, rule: Rule) -> bool {
    !(types.contains_key(rule.field@) && types[rule.field@] == PropertyType::Float)
}

/// No rule in the subtree of `node` compares as floats.
pub open spec fn node_free_of_floats(types: Map<Seq<char>, PropertyType>, node: RuleOrGroup) -> bool
    decreases node, 0int,
{
    match node {
        RuleOrGroup::Rule(rule) => rule_free_of_floats(types, rule),
        RuleOrGroup::Group(group) => children_free_of_floats(types, group.rules@, group.rules@.len() as int),
    }
}

/// No rule in the subtrees of the first `k` children compares as floats.
pub open spec fn children_free_of_floats(
    types: Map<Seq<char>, PropertyType>,
    nodes: Seq<RuleOrGroup>,
    k: int,
) -> bool
    decreases nodes, k,
{
    if k <= 0 || k > nodes.len() {
        true
    } else {
        children_free_of_floats(types, nodes, k - 1) && node_free_of_floats(types, nodes[k - 1])
    }
}

proof fn lemma_children_free_of_floats(
    types: Map<Seq<char>, PropertyType>,
    nodes: Seq<RuleOrGroup>,
    k: int,
    i: int,
)
    requires
        0 <= i < k <= nodes.len(),
        children_free_of_floats(types, nodes, k),
    ensures
        node_free_of_floats(types, nodes[i]),
    decreases k,
{
    if i < k - 1 {
        lemma_children_free_of_floats(types, nodes, k - 1, i);
    }
}

/// Every value is true (so it holds of no values).
pub open spec fn all_true(values: Seq<bool>) -> bool {
    forall|i: int| 0 <= i < values.len() ==> #[trigger] values[i]
}

/// Some value is true (so it fails of no values).
pub open spec fn any_true(values: Seq<bool>) -> bool {
    exists|i: int| 0 <= i < values.len() && #[trigger] values[i]
}

/// The combination of the children's values by a combinator.
pub open spec fn combine(values: Seq<bool>, combinator: Seq<char>) -> Result<bool, (ErrorKind, Seq<char>)> {
    if combinator == comb_and() {
        Ok(all_true(values))
    } else if combinator == comb_or() {
        Ok(any_true(values))
    } else {
        Err((ErrorKind::InvalidCombinator, combinator))
    }
}

/// The outcome of a sequence of children combined by `combinator`: the first
/// failure among the children, in order, else their combination.
pub open spec fn rules_outcome(
    record: Map<Seq<char>, Seq<char>>,
    types: Map<Seq<char>, PropertyType>,
    nodes: Seq<RuleOrGroup>,
    combinator: Seq<char>,
    fo: FloatCompare,
) -> Result<bool, (ErrorKind, Seq<char>)> {
    match children_outcome(record, types, nodes, nodes.len() as int, fo) {
        Ok(values) => combine(values, combinator),
        Err(e) => Err(e),
    }
}

/// A failure among the first `k` children is the failure of every longer prefix.
proof fn lemma_children_error_persists(
    record: Map<Seq<char>, Seq<char>>,
    types: Map<Seq<char>, PropertyType>,
    nodes: Seq<RuleOrGroup>,
    k: int,
    j: int,
    fo: FloatCompare,
)
    requires
        0 < k <= j <= nodes.len(),
        children_outcome(record, types, nodes, k, fo) is Err,
    ensures
        children_outcome(record, types, nodes, j, fo) == children_outcome(record, types, nodes, k, fo),
    decreases j - k,
{
    if k < j {
        lemma_children_error_persists(record, types, nodes, k, j - 1, fo);
    }
}

fn all_true_exec(values: &Vec<bool>) -> (r: bool)
    ensures
        r == all_true(values@),
{
    let mut i: usize = 0;
    while i < values.len()
        invariant
            0 <= i <= values.len(),
            forall|j: int| 0 <= j < i ==> #[trigger] values@[j],
        decreases values.len() - i,
    {
        if !values[i] {
            return false;
        }
        i = i + 1;
    }
    true
}

fn any_true_exec(values: &Vec<bool>) -> (r: bool)
    ensures
        r == any_true(values@),
{
    let mut i: usize = 0;
    while i < values.len()
        invariant
            0 <= i <= values.len(),
            forall|j: int| 0 <= j < i ==> !#[trigger] values@[j],
        decreases values.len() - i,
    {
        if values[i] {
            return true;
        }
        i = i + 1;
    }
    false
}

/// Combines the children's values by a combinator, `"and"` or `"or"`.
fn combine_exec(values: &Vec<bool>, combinator: &str) -> (r: Result<bool, EvalError>)
    ensures
        result_view(r) == combine(values@, combinator@),
{
    proof {
        reveal_strlit("and");
        reveal_strlit("or");
        assert("and"@ =~= comb_and());
        assert("or"@ =~= comb_or());
    }
    if same_text(combinator, "and") {
        Ok(all_true_exec(values))
    } else if same_text(combinator, "or") {
        Ok(any_true_exec(values))
    } else {
        Err(error(ErrorKind::InvalidCombinator, combinator))
    }
}

/// Evaluates a sequence of children, rules and nested groups, in order, and
/// combines their values by `combinator`; the first failure aborts the evaluation.
pub fn evaluate_rules<F: Fn(&str, &str) -> Option<NumOrder>>(
    business_object: &BusinessObject,
    rules: &[RuleOrGroup],
    combinator: &str,
    property_types: &BusinessObjectPropertyTypes,
    compare_floats: &F,
) -> (r: Result<bool, EvalError>)
    requires
        callable(*compare_floats),
    ensures
        forall|fo: FloatCompare| #[trigger]
            computes(*compare_floats, fo) ==> result_view(r) == rules_outcome(
                business_object@,
                property_types@,
                rules@,
                combinator@,
                fo,
            ),
        children_free_of_floats(property_types@, rules@, rules@.len() as int) ==> forall|
            fo: FloatCompare,
        |
            result_view(r) == #[trigger] rules_outcome(
                business_object@,
                property_types@,
                rules@,
                combinator@,
                fo,
            ),
    decreases rules@,
{
    let mut evaluations: Vec<bool> = Vec::new();
    let mut i: usize = 0;
    while i < rules.len()
        invariant
            0 <= i <= rules.len(),
            callable(*compare_floats),
            forall|fo: FloatCompare| #[trigger]
                computes(*compare_floats, fo) ==> children_outcome(
                    business_object@,
                    property_types@,
                    rules@,
                    i as int,
                    fo,
                ) == Ok::<Seq<bool>, (ErrorKind, Seq<char>)>(evaluations@),
            children_free_of_floats(property_types@, rules@, rules@.len() as int) ==> forall|
                fo: FloatCompare,
            |
                #[trigger] children_outcome(
                    business_object@,
                    property_types@,
                    rules@,
                    i as int,
                    fo,
                ) == Ok::<Seq<bool>, (ErrorKind, Seq<char>)>(evaluations@),
        decreases rules.len() - i,
    {
        proof {
            if children_free_of_floats(property_types@, rules@, rules@.len() as int) {
                lemma_children_free_of_floats(property_types@, rules@, rules@.len() as int, i as int);
            }
        }
        let outcome = match &rules[i] {
            RuleOrGroup::Rule(rule) => evaluate_rule(business_object, rule, property_types, compare_floats),
            RuleOrGroup::Group(group) => {
                let inner = evaluate_rules(
                    business_object,
                    group.rules.as_slice(),
                    group.combinator.as_str(),
                    property_types,
                    compare_floats,
                );
                let o = match inner {
                    Ok(b) => Ok(if group.not {
                        !b
                    } else {
                        b
                    }),
                    Err(e) => Err(e),
                };
                proof {
                    if children_free_of_floats(property_types@, group.rules@, group.rules@.len() as int) {
                        assert forall|fo: FloatCompare| result_view(o) == #[trigger] node_outcome(
                            business_object@,
                            property_types@,
                            RuleOrGroup::Group(*group),
                            fo,
                        ) by {
                            assert(result_view(inner) == rules_outcome(
                                business_object@,
                                property_types@,
                                group.rules@,
                                group.combinator@,
                                fo,
                            ));
                        }
                    }
                }
                o
            },
        };
        assert(children_free_of_floats(property_types@, rules@, rules@.len() as int) ==> forall|
            fo: FloatCompare,
        |
            result_view(outcome) == #[trigger] node_outcome(
                business_object@,
                property_types@,
                rules@[i as int],
                fo,
            ));
        assert(forall|fo: FloatCompare| #[trigger]
            computes(*compare_floats, fo) ==> result_view(outcome) == node_outcome(
                business_object@,
                property_types@,
                rules@[i as int],
                fo,
            ));
        match outcome {
            Ok(b) => {
                let ghost before = evaluations@;
                evaluations.push(b);
                proof {
                    if children_free_of_floats(property_types@, rules@, rules@.len() as int) {
                        assert forall|fo: FloatCompare| #[trigger] children_outcome(
                            business_object@,
                            property_types@,
                            rules@,
                            i + 1,
                            fo,
                        ) == Ok::<Seq<bool>, (ErrorKind, Seq<char>)>(evaluations@) by {
                            assert(children_outcome(
                                business_object@,
                                property_types@,
                                rules@,
                                i as int,
                                fo,
                            ) == Ok::<Seq<bool>, (ErrorKind, Seq<char>)>(before));
                            assert(result_view(outcome) == node_outcome(
                                business_object@,
                                property_types@,
                                rules@[i as int],
                                fo,
                            ));
                        }
                    }
                }
            },
            Err(e) => {
                proof {
                    assert forall|fo: FloatCompare| #[trigger]
                        computes(*compare_floats, fo) implies result_view(Err(e)) == rules_outcome(
                            business_object@,
                            property_types@,
                            rules@,
                            combinator@,
                            fo,
                        ) by {
                        lemma_children_error_persists(
                            business_object@,
                            property_types@,
                            rules@,
                            i + 1,
                            rules@.len() as int,
                            fo,
                        );
                    }
                }
                proof {
                    if children_free_of_floats(property_types@, rules@, rules@.len() as int) {
                        assert forall|fo: FloatCompare| result_view(Err(e)) == #[trigger] rules_outcome(
                            business_object@,
                            property_types@,
                            rules@,
                            combinator@,
                            fo,
                        ) by {
                            assert(children_outcome(
                                business_object@,
                                property_types@,
                                rules@,
                                i as int,
                                fo,
                            ) == Ok::<Seq<bool>, (ErrorKind, Seq<char>)>(evaluations@));
                            assert(result_view(outcome) == node_outcome(
                                business_object@,
                                property_types@,
                                rules@[i as int],
                                fo,
                            ));
                            lemma_children_error_persists(
                                business_object@,
                                property_types@,
                                rules@,
                                i + 1,
                                rules@.len() as int,
                                fo,
                            );
                        }
                    }
                }
                return Err(e);
            },
        }
        i = i + 1;
    }
    combine_exec(&evaluations, combinator)
}

} // verus!
