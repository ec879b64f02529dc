use rule_engine::{
    deserialize_property_types, evaluate_rule, evaluate_rules, property_type_from_name,
    property_types_from_entries, BusinessObject, BusinessObjectPropertyTypes, ErrorKind,
    EvalError, NumOrder, PropertyType, Query, Rule, RuleGroup, RuleOrGroup,
};
use std::cmp::Ordering;
use std::collections::HashMap;

fn compare_floats(a: &str, b: &str) -> Option<NumOrder> {
    let x: f64 = a.parse().ok()?;
    let y: f64 = b.parse().ok()?;
    Some(match x.partial_cmp(&y) {
        Some(Ordering::Less) => NumOrder::Less,
        Some(Ordering::Equal) => NumOrder::Equal,
        Some(Ordering::Greater) => NumOrder::Greater,
        None => NumOrder::Unordered,
    })
}

fn rule(field: &str, operator: &str, value: &str) -> Rule {
    Rule {
        field: field.to_string(),
        operator: operator.to_string(),
        value_source: "value".to_string(),
        value: value.to_string(),
    }
}

fn group(rules: Vec<RuleOrGroup>, combinator: &str, not: bool) -> RuleOrGroup {
    RuleOrGroup::Group(RuleGroup { rules, combinator: combinator.to_string(), not })
}

fn record(pairs: &[(&str, &str)]) -> BusinessObject {
    BusinessObject {
        properties: pairs.iter().map(|(k, v)| (k.to_string(), v.to_string())).collect(),
    }
}

fn registry(pairs: &[(&str, PropertyType)]) -> BusinessObjectPropertyTypes {
    BusinessObjectPropertyTypes { types: pairs.iter().map(|(k, t)| (k.to_string(), *t)).collect() }
}

fn err(kind: ErrorKind, detail: &str) -> Result<bool, EvalError> {
    Err(EvalError { kind, detail: detail.to_string() })
}

fn car() -> BusinessObject {
    record(&[("model", "mustang"), ("bodyStyle", "convertible"), ("engineDisplacement", "351")])
}

fn car_types() -> BusinessObjectPropertyTypes {
    registry(&[
        ("model", PropertyType::String),
        ("bodyStyle", PropertyType::String),
        ("engineDisplacement", PropertyType::Int),
    ])
}

fn one(r: Rule, obj: &BusinessObject, types: &BusinessObjectPropertyTypes) -> Result<bool, EvalError> {
    evaluate_rule(obj, &r, types, &compare_floats)
}

#[test]
fn test_one_field_one_rule_group_one_recursion_level() {
    let business_object = BusinessObject {
        properties: HashMap::from([
            ("model".to_string(), "mustang".to_string()),
            ("bodyStyle".to_string(), "convertible".to_string()),
            ("engineDisplacement".to_string(), "351".to_string()),
        ]),
    };

    let property_types = BusinessObjectPropertyTypes {
        types: HashMap::from([
            ("model".to_string(), PropertyType::String),
            ("bodyStyle".to_string(), PropertyType::String),
            ("engineDisplacement".to_string(), PropertyType::Int),
        ]),
    };

    let query = Query {
        combinator: "and".to_string(),
        rules: vec![
            RuleOrGroup::Rule(Rule {
                field: "model".to_string(),
                operator: "=".to_string(),
                value_source: "value".to_string(),
                value: "mustang".to_string(),
            }),
            RuleOrGroup::Group(RuleGroup {
                rules: vec![
                    RuleOrGroup::Rule(Rule {
                        field: "bodyStyle".to_string(),
                        operator: "=".to_string(),
                        value_source: "value".to_string(),
                        value: "convertible".to_string(),
                    }),
                    RuleOrGroup::Rule(Rule {
                        field: "engineDisplacement".to_string(),
                        operator: "=".to_string(),
                        value_source: "value".to_string(),
                        value: "351".to_string(),
                    }),
                ],
                combinator: "or".to_string(),
                not: false,
            }),
        ],
    };

    let result = evaluate_rules(
        &business_object,
        &query.rules,
        &query.combinator,
        &property_types,
        &compare_floats,
    );
    assert_eq!(result, Ok(true));
}

#[test]
fn test_one_field_two_rule_groups_one_recursion_level() {
    let business_object = BusinessObject {
        properties: HashMap::from([
            ("model".to_string(), "mustang".to_string()),
            ("bodyStyle".to_string(), "convertible".to_string()),
            ("engineDisplacement".to_string(), "351".to_string()),
            ("transmission".to_string(), "manual".to_string()),
            ("curbWeight".to_string(), "2835".to_string()),
        ]),
    };

    let property_types = BusinessObjectPropertyTypes {
        types: HashMap::from([
            ("model".to_string(), PropertyType::String),
            ("bodyStyle".to_string(), PropertyType::String),
            ("engineDisplacement".to_string(), PropertyType::Int),
            ("transmission".to_string(), PropertyType::String),
            ("curbWeight".to_string(), PropertyType::Int),
        ]),
    };

    let query = Query {
        combinator: "and".to_string(),
        rules: vec![
            RuleOrGroup::Rule(Rule {
                field: "model".to_string(),
                operator: "=".to_string(),
                value_source: "value".to_string(),
                value: "mustang".to_string(),
            }),
            RuleOrGroup::Group(RuleGroup {
                rules: vec![
                    RuleOrGroup::Rule(Rule {
                        field: "bodyStyle".to_string(),
                        operator: "=".to_string(),
                        value_source: "value".to_string(),
                        value: "convertible".to_string(),
                    }),
                    RuleOrGroup::Rule(Rule {
                        field: "engineDisplacement".to_string(),
                        operator: "=".to_string(),
                        value_source: "value".to_string(),
                        value: "351".to_string(),
                    }),
                ],
                combinator: "or".to_string(),
                not: false,
            }),
            RuleOrGroup::Group(RuleGroup {
                rules: vec![
                    RuleOrGroup::Rule(Rule {
                        field: "transmission".to_string(),
                        operator: "=".to_string(),
                        value_source: "value".to_string(),
                        value: "manual".to_string(),
                    }),
                    RuleOrGroup::Rule(Rule {
                        field: "curbWeight".to_string(),
                        operator: "=".to_string(),
                        value_source: "value".to_string(),
                        value: "2835".to_string(),
                    }),
                ],
                combinator: "and".to_string(),
                not: false,
            }),
        ],
    };

    let result = evaluate_rules(
        &business_object,
        &query.rules,
        &query.combinator,
        &property_types,
        &compare_floats,
    );
    assert_eq!(result, Ok(true));
}

#[test]
fn test_one_field_two_rule_groups_two_recursion_levels() {
    let business_object = BusinessObject {
        properties: HashMap::from([
            ("model".to_string(), "mustang".to_string()),
            ("bodyStyle".to_string(), "convertible".to_string()),
            ("engineDisplacement".to_string(), "351".to_string()),
            ("year".to_string(), "1969".to_string()),
            ("turningDiameter".to_string(), "37".to_string()),
        ]),
    };

    let property_types = BusinessObjectPropertyTypes {
        types: HashMap::from([
            ("model".to_string(), PropertyType::String),
            ("bodyStyle".to_string(), PropertyType::String),
            ("engineDisplacement".to_string(), PropertyType::Int),
            ("year".to_string(), PropertyType::Int),
            ("turningDiameter".to_string(), PropertyType::Float),
        ]),
    };

    let query = Query {
        combinator: "and".to_string(),
        rules: vec![
            RuleOrGroup::Rule(Rule {
                field: "model".to_string(),
                operator: "=".to_string(),
                value_source: "value".to_string(),
                value: "mustang".to_string(),
            }),
            RuleOrGroup::Group(RuleGroup {
                rules: vec![
                    RuleOrGroup::Rule(Rule {
                        field: "bodyStyle".to_string(),
                        operator: "=".to_string(),
                        value_source: "value".to_string(),
                        value: "convertible".to_string(),
                    }),
                    RuleOrGroup::Rule(Rule {
                        field: "engineDisplacement".to_string(),
                        operator: "=".to_string(),
                        value_source: "value".to_string(),
                        value: "351".to_string(),
                    }),
                    RuleOrGroup::Group(RuleGroup {
                        rules: vec![
                            RuleOrGroup::Rule(Rule {
                                field: "year".to_string(),
                                operator: "=".to_string(),
                                value_source: "value".to_string(),
                                value: "1969".to_string(),
                            }),
                            RuleOrGroup::Rule(Rule {
                                field: "turningDiameter".to_string(),
                                operator: ">=".to_string(),
                                value_source: "value".to_string(),
                                value: "37".to_string(),
                            }),
                        ],
                        combinator: "or".to_string(),
                        not: false,
                    }),
                ],
                combinator: "or".to_string(),
                not: false,
            }),
        ],
    };

    let result = evaluate_rules(
        &business_object,
        &query.rules,
        &query.combinator,
        &property_types,
        &compare_floats,
    );
    assert_eq!(result, Ok(true));
}

#[test]
fn empty_groups_follow_vacuous_truth() {
    let obj = car();
    let types = car_types();
    assert_eq!(evaluate_rules(&obj, &[], "and", &types, &compare_floats), Ok(true));
    assert_eq!(evaluate_rules(&obj, &[], "or", &types, &compare_floats), Ok(false));
    let nested = vec![group(vec![], "or", false)];
    assert_eq!(evaluate_rules(&obj, &nested, "and", &types, &compare_floats), Ok(false));
}

#[test]
fn not_equal_negates_equal_for_every_type() {
    let obj = record(&[("s", "Red"), ("e", "blue"), ("i", "42"), ("f", "2.5"), ("n", "NaN")]);
    let types = registry(&[
        ("s", PropertyType::String),
        ("e", PropertyType::Select),
        ("i", PropertyType::Int),
        ("f", PropertyType::Float),
        ("n", PropertyType::Float),
    ]);
    let cases = [("s", "red"), ("s", "green"), ("e", "BLUE"), ("e", "x"), ("i", "42"), ("i", "41"), ("f", "2.50"), ("f", "3"), ("n", "NaN")];
    for (field, value) in cases {
        let eq = one(rule(field, "=", value), &obj, &types);
        let ne = one(rule(field, "!=", value), &obj, &types);
        assert_eq!(ne, eq.map(|b| !b));
    }
    assert_eq!(one(rule("n", "=", "NaN"), &obj, &types), Ok(false));
    assert_eq!(one(rule("n", "!=", "NaN"), &obj, &types), Ok(true));
}

#[test]
fn text_equality_ignores_ascii_case() {
    let obj = car();
    let types = car_types();
    assert_eq!(one(rule("model", "=", "MUSTANG"), &obj, &types), Ok(true));
    assert_eq!(one(rule("model", "=", "MuStAnG"), &obj, &types), Ok(true));
    assert_eq!(one(rule("model", "=", "mustangs"), &obj, &types), Ok(false));
    assert_eq!(one(rule("model", "!=", "Mustang"), &obj, &types), Ok(false));
    let obj = record(&[("c", "Ärger"), ("d", "ärger")]);
    let types = registry(&[("c", PropertyType::Select), ("d", PropertyType::Select)]);
    assert_eq!(one(rule("c", "=", "ärger"), &obj, &types), Ok(false));
    assert_eq!(one(rule("d", "=", "äRGER"), &obj, &types), Ok(true));
}

#[test]
fn numbers_that_do_not_parse_are_rejected() {
    let obj = record(&[("i", "12a"), ("j", "7"), ("f", "abc"), ("g", "1.5")]);
    let types = registry(&[
        ("i", PropertyType::Int),
        ("j", PropertyType::Int),
        ("f", PropertyType::Float),
        ("g", PropertyType::Float),
    ]);
    assert_eq!(one(rule("i", "=", "12"), &obj, &types), err(ErrorKind::InvalidIntegerValue, "i"));
    assert_eq!(one(rule("j", "=", "seven"), &obj, &types), err(ErrorKind::InvalidIntegerValue, "j"));
    assert_eq!(one(rule("j", "=", "7.0"), &obj, &types), err(ErrorKind::InvalidIntegerValue, "j"));
    assert_eq!(one(rule("f", ">=", "1"), &obj, &types), err(ErrorKind::InvalidFloatValue, "f"));
    assert_eq!(one(rule("g", "<=", "x"), &obj, &types), err(ErrorKind::InvalidFloatValue, "g"));
    // a value that does not parse is reported before an unsupported operator
    assert_eq!(one(rule("i", "<", "12"), &obj, &types), err(ErrorKind::InvalidIntegerValue, "i"));
}

#[test]
fn integer_grammar_and_range() {
    let obj = record(&[("a", "+5"), ("b", "-2147483648"), ("c", "2147483647"), ("d", "2147483648"), ("e", ""), ("f", " 5"), ("g", "-"), ("h", "007")]);
    let types = registry(&[
        ("a", PropertyType::Int),
        ("b", PropertyType::Int),
        ("c", PropertyType::Int),
        ("d", PropertyType::Int),
        ("e", PropertyType::Int),
        ("f", PropertyType::Int),
        ("g", PropertyType::Int),
        ("h", PropertyType::Int),
    ]);
    assert_eq!(one(rule("a", "=", "5"), &obj, &types), Ok(true));
    assert_eq!(one(rule("b", "<=", "-2147483647"), &obj, &types), Ok(true));
    assert_eq!(one(rule("c", ">=", "2147483647"), &obj, &types), Ok(true));
    assert_eq!(one(rule("d", "=", "0"), &obj, &types), err(ErrorKind::InvalidIntegerValue, "d"));
    assert_eq!(one(rule("e", "=", "0"), &obj, &types), err(ErrorKind::InvalidIntegerValue, "e"));
    assert_eq!(one(rule("f", "=", "5"), &obj, &types), err(ErrorKind::InvalidIntegerValue, "f"));
    assert_eq!(one(rule("g", "=", "0"), &obj, &types), err(ErrorKind::InvalidIntegerValue, "g"));
    assert_eq!(one(rule("h", "=", "7"), &obj, &types), Ok(true));
    assert_eq!(one(rule("h", "<=", "6"), &obj, &types), Ok(false));
    assert_eq!(one(rule("h", ">=", "-8"), &obj, &types), Ok(true));
}

#[test]
fn unsupported_operators_fail() {
    let obj = record(&[("s", "a"), ("e", "b"), ("i", "1"), ("f", "1.0")]);
    let types = registry(&[
        ("s", PropertyType::String),
        ("e", PropertyType::Select),
        ("i", PropertyType::Int),
        ("f", PropertyType::Float),
    ]);
    assert_eq!(one(rule("s", "<=", "a"), &obj, &types), err(ErrorKind::UnsupportedOperator, "<="));
    assert_eq!(one(rule("e", ">=", "b"), &obj, &types), err(ErrorKind::UnsupportedOperator, ">="));
    assert_eq!(one(rule("i", "<", "2"), &obj, &types), err(ErrorKind::UnsupportedOperator, "<"));
    assert_eq!(one(rule("f", "==", "1"), &obj, &types), err(ErrorKind::UnsupportedOperator, "=="));
}

#[test]
fn order_of_children_does_not_matter() {
    let obj = car();
    let types = car_types();
    let a = || RuleOrGroup::Rule(rule("model", "=", "mustang"));
    let b = || RuleOrGroup::Rule(rule("bodyStyle", "=", "sedan"));
    let c = || RuleOrGroup::Rule(rule("engineDisplacement", "=", "351"));
    let first = vec![a(), group(vec![b(), c()], "or", false)];
    let second = vec![group(vec![c(), b()], "or", false), a()];
    let r1 = evaluate_rules(&obj, &first, "and", &types, &compare_floats);
    let r2 = evaluate_rules(&obj, &second, "and", &types, &compare_floats);
    assert_eq!(r1, Ok(true));
    assert_eq!(r1, r2);
}

#[test]
fn scenario_nested_or_holds() {
    let obj = car();
    let types = car_types();
    let rules = vec![
        RuleOrGroup::Rule(rule("model", "=", "mustang")),
        group(
            vec![
                RuleOrGroup::Rule(rule("bodyStyle", "=", "convertible")),
                RuleOrGroup::Rule(rule("engineDisplacement", "=", "351")),
            ],
            "or",
            false,
        ),
    ];
    assert_eq!(evaluate_rules(&obj, &rules, "and", &types, &compare_floats), Ok(true));
}

#[test]
fn scenario_nested_or_fails() {
    let obj = car();
    let types = car_types();
    let rules = vec![
        RuleOrGroup::Rule(rule("model", "=", "mustang")),
        group(
            vec![
                RuleOrGroup::Rule(rule("bodyStyle", "=", "sedan")),
                RuleOrGroup::Rule(rule("engineDisplacement", "=", "999")),
            ],
            "or",
            false,
        ),
    ];
    assert_eq!(evaluate_rules(&obj, &rules, "and", &types, &compare_floats), Ok(false));
}

#[test]
fn scenario_float_at_least() {
    let obj = record(&[("turningDiameter", "37")]);
    let types = registry(&[("turningDiameter", PropertyType::Float)]);
    assert_eq!(one(rule("turningDiameter", ">=", "37"), &obj, &types), Ok(true));
    assert_eq!(one(rule("turningDiameter", ">=", "38"), &obj, &types), Ok(false));
    assert_eq!(one(rule("turningDiameter", "<=", "37.5"), &obj, &types), Ok(true));
    assert_eq!(one(rule("turningDiameter", "=", "37.0"), &obj, &types), Ok(true));
}

#[test]
fn scenario_missing_field() {
    let obj = car();
    let types = car_types();
    assert_eq!(one(rule("color", "=", "red"), &obj, &types), err(ErrorKind::FieldNotFound, "color"));
    let obj = record(&[("color", "red")]);
    assert_eq!(
        one(rule("color", "=", "red"), &obj, &types),
        err(ErrorKind::PropertyTypeNotFound, "color")
    );
}

#[test]
fn not_flag_negates_a_group() {
    let obj = car();
    let types = car_types();
    let rules = vec![group(vec![RuleOrGroup::Rule(rule("model", "=", "mustang"))], "and", true)];
    assert_eq!(evaluate_rules(&obj, &rules, "and", &types, &compare_floats), Ok(false));
    let rules = vec![group(vec![RuleOrGroup::Rule(rule("model", "=", "camaro"))], "or", true)];
    assert_eq!(evaluate_rules(&obj, &rules, "and", &types, &compare_floats), Ok(true));
}

#[test]
fn invalid_combinators_fail() {
    let obj = car();
    let types = car_types();
    let rules = vec![RuleOrGroup::Rule(rule("model", "=", "mustang"))];
    assert_eq!(
        evaluate_rules(&obj, &rules, "xor", &types, &compare_floats),
        err(ErrorKind::InvalidCombinator, "xor")
    );
    assert_eq!(
        evaluate_rules(&obj, &rules, "AND", &types, &compare_floats),
        err(ErrorKind::InvalidCombinator, "AND")
    );
    let nested = vec![group(vec![], "nand", false)];
    assert_eq!(
        evaluate_rules(&obj, &nested, "or", &types, &compare_floats),
        err(ErrorKind::InvalidCombinator, "nand")
    );
}

#[test]
fn first_failure_in_order_wins() {
    let obj = car();
    let types = car_types();
    let rules = vec![
        RuleOrGroup::Rule(rule("model", "=", "camaro")),
        RuleOrGroup::Rule(rule("color", "=", "red")),
        RuleOrGroup::Rule(rule("model", "<=", "x")),
    ];
    assert_eq!(
        evaluate_rules(&obj, &rules, "and", &types, &compare_floats),
        err(ErrorKind::FieldNotFound, "color")
    );
    // children are evaluated before the combinator is looked at
    assert_eq!(
        evaluate_rules(&obj, &rules[2..], "bogus", &types, &compare_floats),
        err(ErrorKind::UnsupportedOperator, "<=")
    );
}

#[test]
fn type_names_map_to_types() {
    assert_eq!(property_type_from_name("Int"), Ok(PropertyType::Int));
    assert_eq!(property_type_from_name("Float"), Ok(PropertyType::Float));
    assert_eq!(property_type_from_name("Select"), Ok(PropertyType::Select));
    assert_eq!(property_type_from_name("String"), Ok(PropertyType::String));
    assert_eq!(
        property_type_from_name("int"),
        Err(EvalError { kind: ErrorKind::UnknownPropertyType, detail: "int".to_string() })
    );
}

#[test]
fn registry_from_entries() {
    let entries = vec![
        ("model".to_string(), "String".to_string()),
        ("year".to_string(), "Int".to_string()),
    ];
    let reg = property_types_from_entries(entries).unwrap();
    assert_eq!(reg.types.len(), 2);
    assert_eq!(reg.types.get("model"), Some(&PropertyType::String));
    assert_eq!(reg.types.get("year"), Some(&PropertyType::Int));
    let entries = vec![
        ("model".to_string(), "String".to_string()),
        ("year".to_string(), "Date".to_string()),
        ("x".to_string(), "Bool".to_string()),
    ];
    assert_eq!(
        property_types_from_entries(entries).err(),
        Some(EvalError { kind: ErrorKind::UnknownPropertyType, detail: "Date".to_string() })
    );
}

#[test]
fn registry_from_json() {
    let mut object = serde_json::Map::new();
    object.insert("model".to_string(), serde_json::Value::String("String".to_string()));
    object.insert("bodyStyle".to_string(), serde_json::Value::String("Select".to_string()));
    object.insert("engineDisplacement".to_string(), serde_json::Value::String("Int".to_string()));
    let reg = deserialize_property_types(serde_json::Value::Object(object)).unwrap();
    assert_eq!(reg.types.len(), 3);
    assert_eq!(reg.types.get("bodyStyle"), Some(&PropertyType::Select));
    assert_eq!(reg.types.get("engineDisplacement"), Some(&PropertyType::Int));

    let mut object = serde_json::Map::new();
    object.insert("model".to_string(), serde_json::Value::String("Text".to_string()));
    let e = deserialize_property_types(serde_json::Value::Object(object)).err().unwrap();
    assert_eq!(e.kind, ErrorKind::UnknownPropertyType);
    assert_eq!(e.detail, "Text");

    let e = deserialize_property_types(serde_json::Value::Bool(true)).err().unwrap();
    assert_eq!(e.kind, ErrorKind::Malformed);
    let mut object = serde_json::Map::new();
    object.insert("model".to_string(), serde_json::Value::Bool(false));
    let e = deserialize_property_types(serde_json::Value::Object(object)).err().unwrap();
    assert_eq!(e.kind, ErrorKind::Malformed);
}

#[test]
fn error_messages_name_their_cause() {
    let obj = car();
    let types = car_types();
    let e = one(rule("color", "=", "red"), &obj, &types).err().unwrap();
    assert_eq!(e.message(), "Field color not found in business object");
    let e = one(rule("model", "<=", "x"), &obj, &types).err().unwrap();
    assert_eq!(e.message(), "Unsupported operator: <=");
    let e = evaluate_rules(&obj, &[], "xor", &types, &compare_floats).err().unwrap();
    assert_eq!(e.message(), "Invalid combinator: xor");
    let obj = record(&[("color", "red")]);
    let e = one(rule("color", "=", "red"), &obj, &types).err().unwrap();
    assert_eq!(e.message(), "Property type for field color not found");
}
