//! Properties of evaluation that hold for every record, registry and query.
use crate::engine::{
    all_true, any_true, children_outcome, comb_and, comb_or, node_outcome, op_eq, op_ge, op_le, op_ne,
    rule_outcome, rules_outcome, FloatCompare,
};
use crate::model::{ErrorKind, PropertyType, Rule, RuleOrGroup};
use crate::text::{parse_i32_spec, text_eq_ignore_ascii_case};
use vstd::prelude::*;

verus! {

/// A group of no children holds under `"and"` and fails under `"or"`.
pub proof fn law_empty_groups(
    record: Map<Seq<char>, Seq<char>>,
    types: Map<Seq<char>, PropertyType>,
    fo: FloatCompare,
)
    ensures
        rules_outcome(record, types, Seq::empty(), comb_and(), fo) == Ok::<bool, (ErrorKind, Seq<char>)>(true),
        rules_outcome(record, types, Seq::empty(), comb_or(), fo) == Ok::<bool, (ErrorKind, Seq<char>)>(false),
{
}

/// For every field type, a rule with `"!="` gives the negation of the same rule with
/// `"="`, and the same failure where that one fails.
pub proof fn law_not_equal_negates_equal(
    record: Map<Seq<char>, Seq<char>>,
    types: Map<Seq<char>, PropertyType>,
    eq_rule: Rule,
    ne_rule: Rule,
    fo: FloatCompare,
)
    requires
        eq_rule.operator@ == op_eq(),
        ne_rule.operator@ == op_ne(),
        eq_rule.field@ == ne_rule.field@,
        eq_rule.value@ == ne_rule.value@,
    ensures
        match rule_outcome(record, types, eq_rule, fo) {
            Ok(b) => rule_outcome(record, types, ne_rule, fo) == Ok::<bool, (ErrorKind, Seq<char>)>(!b),
            Err(e) => rule_outcome(record, types, ne_rule, fo) == Err::<bool, (ErrorKind, Seq<char>)>(e),
        },
{
    assert(op_eq() != op_ne()) by {
        assert(op_eq().len() != op_ne().len());
    }
}

/// On a text field (`String` or `Select`), `"="` holds exactly where the two texts
/// are equal up to ASCII case.
pub proof fn law_text_equality_ignores_case(
    record: Map<Seq<char>, Seq<char>>,
    types: Map<Seq<char>, PropertyType>,
    rule: Rule,
    fo: FloatCompare,
)
    requires
        rule.operator@ == op_eq(),
        record.contains_key(rule.field@),
        types.contains_key(rule.field@),
        types[rule.field@] == PropertyType::String || types[rule.field@] == PropertyType::Select,
    ensures
        rule_outcome(record, types, rule, fo) == Ok::<bool, (ErrorKind, Seq<char>)>(
            text_eq_ignore_ascii_case(record[rule.field@], rule.value@),
        ),
{
}

/// A numeric field whose record value or rule value does not parse fails with
/// `InvalidIntegerValue` or `InvalidFloatValue`, whatever the operator.
pub proof fn law_numbers_must_parse(
    record: Map<Seq<char>, Seq<char>>,
    types: Map<Seq<char>, PropertyType>,
    rule: Rule,
    fo: FloatCompare,
)
    requires
        record.contains_key(rule.field@),
        types.contains_key(rule.field@),
    ensures
        types[rule.field@] == PropertyType::Int && (parse_i32_spec(record[rule.field@]) is None
            || parse_i32_spec(rule.value@) is None) ==> rule_outcome(record, types, rule, fo)
            == Err::<bool, (ErrorKind, Seq<char>)>((ErrorKind::InvalidIntegerValue, rule.field@)),
        types[rule.field@] == PropertyType::Float && fo(record[rule.field@], rule.value@) is None
            ==> rule_outcome(record, types, rule, fo) == Err::<bool, (ErrorKind, Seq<char>)>(
            (ErrorKind::InvalidFloatValue, rule.field@),
        ),
{
}

/// An operator that the field's type does not support fails with
/// `UnsupportedOperator`: anything but `"="` and `"!="` on a text field, anything but
/// `"="`, `"!="`, `"<="` and `">="` on a numeric field whose values parse.
pub proof fn law_unsupported_operator_fails(
    record: Map<Seq<char>, Seq<char>>,
    types: Map<Seq<char>, PropertyType>,
    rule: Rule,
    fo: FloatCompare,
)
    requires
        record.contains_key(rule.field@),
        types.contains_key(rule.field@),
        rule.operator@ != op_eq(),
        rule.operator@ != op_ne(),
    ensures
        (types[rule.field@] == PropertyType::String || types[rule.field@] == PropertyType::Select)
            ==> rule_outcome(record, types, rule, fo) == Err::<bool, (ErrorKind, Seq<char>)>(
            (ErrorKind::UnsupportedOperator, rule.operator@),
        ),
        rule.operator@ != op_le() && rule.operator@ != op_ge() && (
        types[rule.field@] == PropertyType::Int && parse_i32_spec(record[rule.field@]) is Some
            && parse_i32_spec(rule.value@) is Some || types[rule.field@] == PropertyType::Float
            && fo(record[rule.field@], rule.value@) is Some) ==> rule_outcome(
            record,
            types,
            rule,
            fo,
        ) == Err::<bool, (ErrorKind, Seq<char>)>((ErrorKind::UnsupportedOperator, rule.operator@)),
{
}

/// The first `k` children evaluate without failure exactly where each of them does,
/// and their values are then the children's values, in order.
pub proof fn lemma_children_values(
    record: Map<Seq<char>, Seq<char>>,
    types: Map<Seq<char>, PropertyType>,
    nodes: Seq<RuleOrGroup>,
    k: int,
    fo: FloatCompare,
)
    requires
        0 <= k <= nodes.len(),
    ensures
        children_outcome(record, types, nodes, k, fo) is Ok <==> forall|i: int|
            0 <= i < k ==> #[trigger] node_outcome(record, types, nodes[i], fo) is Ok,
        children_outcome(record, types, nodes, k, fo) matches Ok(values) ==> values.len() == k
            && forall|i: int|
            0 <= i < k ==> #[trigger] node_outcome(record, types, nodes[i], fo) == Ok::<
                bool,
                (ErrorKind, Seq<char>),
            >(values[i]),
    decreases k,
{
    if k > 0 {
        lemma_children_values(record, types, nodes, k - 1, fo);
        if forall|i: int| 0 <= i < k ==> #[trigger] node_outcome(record, types, nodes[i], fo) is Ok {
            assert(node_outcome(record, types, nodes[k - 1], fo) is Ok);
            assert forall|i: int| 0 <= i < k - 1 implies #[trigger] node_outcome(
                record,
                types,
                nodes[i],
                fo,
            ) is Ok by {
                assert(0 <= i < k);
            }
        }
    }
}

/// Within a group, the order of the children does not matter: where every child
/// evaluates without failure, any rearrangement of them gives the same outcome
/// under any combinator.
pub proof fn law_order_independent(
    record: Map<Seq<char>, Seq<char>>,
    types: Map<Seq<char>, PropertyType>,
    nodes: Seq<RuleOrGroup>,
    rearranged: Seq<RuleOrGroup>,
    combinator: Seq<char>,
    fo: FloatCompare,
)
    requires
        rearranged.to_multiset() == nodes.to_multiset(),
        forall|i: int| 0 <= i < nodes.len() ==> #[trigger] node_outcome(record, types, nodes[i], fo) is Ok,
    ensures
        rules_outcome(record, types, rearranged, combinator, fo) == rules_outcome(
            record,
            types,
            nodes,
            combinator,
            fo,
        ),
{
    broadcast use vstd::seq_lib::group_to_multiset_ensures;

    assert forall|j: int| 0 <= j < rearranged.len() implies exists|i: int|
        0 <= i < nodes.len() && nodes[i] == #[trigger] rearranged[j] by {
        assert(rearranged.to_multiset().count(rearranged[j]) > 0);
        assert(nodes.contains(rearranged[j]));
    }
    assert forall|i: int| 0 <= i < nodes.len() implies exists|j: int|
        0 <= j < rearranged.len() && rearranged[j] == #[trigger] nodes[i] by {
        assert(nodes.to_multiset().count(nodes[i]) > 0);
        assert(rearranged.contains(nodes[i]));
    }
    assert forall|j: int| 0 <= j < rearranged.len() implies #[trigger] node_outcome(
        record,
        types,
        rearranged[j],
        fo,
    ) is Ok by {
        let i = choose|i: int| 0 <= i < nodes.len() && nodes[i] == rearranged[j];
        assert(node_outcome(record, types, nodes[i], fo) is Ok);
    }
    lemma_children_values(record, types, nodes, nodes.len() as int, fo);
    lemma_children_values(record, types, rearranged, rearranged.len() as int, fo);
    let values = children_outcome(record, types, nodes, nodes.len() as int, fo)->Ok_0;
    let others = children_outcome(record, types, rearranged, rearranged.len() as int, fo)->Ok_0;
    assert(all_true(values) == all_true(others)) by {
        if all_true(values) {
            assert forall|j: int| 0 <= j < others.len() implies #[trigger] others[j] by {
                let i = choose|i: int| 0 <= i < nodes.len() && nodes[i] == rearranged[j];
                assert(node_outcome(record, types, nodes[i], fo) == Ok::<bool, (ErrorKind, Seq<char>)>(values[i]));
                assert(node_outcome(record, types, rearranged[j], fo) == Ok::<bool, (ErrorKind, Seq<char>)>(others[j]));
                assert(values[i]);
            }
        }
        if all_true(others) {
            assert forall|i: int| 0 <= i < values.len() implies #[trigger] values[i] by {
                let j = choose|j: int| 0 <= j < rearranged.len() && rearranged[j] == nodes[i];
                assert(node_outcome(record, types, nodes[i], fo) == Ok::<bool, (ErrorKind, Seq<char>)>(values[i]));
                assert(node_outcome(record, types, rearranged[j], fo) == Ok::<bool, (ErrorKind, Seq<char>)>(others[j]));
                assert(others[j]);
            }
        }
    }
    assert(any_true(values) == any_true(others)) by {
        if any_true(values) {
            let i = choose|i: int| 0 <= i < values.len() && #[trigger] values[i];
            let j = choose|j: int| 0 <= j < rearranged.len() && rearranged[j] == nodes[i];
            assert(node_outcome(record, types, nodes[i], fo) == Ok::<bool, (ErrorKind, Seq<char>)>(values[i]));
            assert(node_outcome(record, types, rearranged[j], fo) == Ok::<bool, (ErrorKind, Seq<char>)>(others[j]));
            assert(others[j]);
        }
        if any_true(others) {
            let j = choose|j: int| 0 <= j < others.len() && #[trigger] others[j];
            let i = choose|i: int| 0 <= i < nodes.len() && nodes[i] == rearranged[j];
            assert(node_outcome(record, types, nodes[i], fo) == Ok::<bool, (ErrorKind, Seq<char>)>(values[i]));
            assert(node_outcome(record, types, rearranged[j], fo) == Ok::<bool, (ErrorKind, Seq<char>)>(others[j]));
            assert(values[i]);
        }
    }
}

} // verus!
