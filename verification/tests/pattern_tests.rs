use dang::value::Value;
use dang::vm::pattern::{Pattern, PatternNode};

#[test]
fn test_match_variable() {
    let pattern = Pattern::new(1, PatternNode::Variable { stack_slot: 0 });
    let value = Value::Integer(42);
    let result = pattern.match_pattern(&value).unwrap();
    assert_eq!(result, vec![value]);
}

#[test]
fn test_match_wildcard() {
    let pattern = Pattern::new(0, PatternNode::Wildcard);
    let value = Value::Integer(42);
    let result = pattern.match_pattern(&value).unwrap();
    assert_eq!(result, vec![]);
}

#[test]
fn test_match_constant() {
    let pattern = Pattern::new(0, PatternNode::Constant(Value::Integer(42)));
    let value = Value::Integer(42);
    let result = pattern.match_pattern(&value).unwrap();
    assert_eq!(result, vec![]);
}

#[test]
fn test_tuple() {
    let pattern = Pattern::new(
        2,
        PatternNode::Tuple(vec![
            PatternNode::Variable { stack_slot: 0 },
            PatternNode::Variable { stack_slot: 1 },
        ]),
    );
    let value = Value::Tuple(vec![Value::Integer(42), Value::Integer(43)]);
    let result = pattern.match_pattern(&value).unwrap();
    assert_eq!(result, vec![Value::Integer(42), Value::Integer(43)]);
}

#[test]
fn test_list_with_rest_at_end() {
    let pattern = Pattern::new(
        3,
        PatternNode::List {
            start: vec![
                PatternNode::Variable { stack_slot: 0 },
                PatternNode::Variable { stack_slot: 1 },
            ],
            rest: Some(Box::new(PatternNode::Variable { stack_slot: 2 })),
            end: vec![],
        },
    );
    let value = Value::list(vec![
        Value::Integer(42),
        Value::Integer(43),
        Value::Integer(44),
        Value::Integer(45),
    ]);
    let result = pattern.match_pattern(&value).unwrap();
    assert_eq!(
        result,
        vec![
            Value::Integer(42),
            Value::Integer(43),
            Value::list(vec![Value::Integer(44), Value::Integer(45)])
        ]
    );
}

#[test]
fn test_list_with_rest_at_start() {
    let pattern = Pattern::new(
        3,
        PatternNode::List {
            start: vec![],
            rest: Some(Box::new(PatternNode::Variable { stack_slot: 0 })),
            end: vec![
                PatternNode::Variable { stack_slot: 1 },
                PatternNode::Variable { stack_slot: 2 },
            ],
        },
    );

    let value = Value::list(vec![
        Value::Integer(42),
        Value::Integer(43),
        Value::Integer(44),
        Value::Integer(45),
    ]);

    let result = pattern.match_pattern(&value).unwrap();
    assert_eq!(
        result,
        vec![
            Value::list(vec![Value::Integer(42), Value::Integer(43)]),
            Value::Integer(44),
            Value::Integer(45),
        ]
    );
}

#[test]
fn test_list_with_rest_in_middle() {
    let pattern = Pattern::new(
        3,
        PatternNode::List {
            start: vec![PatternNode::Variable { stack_slot: 0 }],
            rest: Some(Box::new(PatternNode::Variable { stack_slot: 1 })),
            end: vec![PatternNode::Variable { stack_slot: 2 }],
        },
    );
    let value = Value::list(vec![
        Value::Integer(42),
        Value::Integer(43),
        Value::Integer(44),
        Value::Integer(45),
    ]);
    let result = pattern.match_pattern(&value).unwrap();
    assert_eq!(
        result,
        vec![
            Value::Integer(42),
            Value::list(vec![Value::Integer(43), Value::Integer(44)]),
            Value::Integer(45),
        ]
    );
}

#[test]
fn tuple_of_wrong_arity_does_not_match() {
    let pattern = Pattern::new(
        2,
        PatternNode::Tuple(vec![
            PatternNode::Variable { stack_slot: 0 },
            PatternNode::Variable { stack_slot: 1 },
        ]),
    );
    let value = Value::Tuple(vec![Value::Integer(1)]);
    assert!(pattern.match_pattern(&value).is_err());
}

#[test]
fn different_constant_does_not_match() {
    let pattern = Pattern::new(0, PatternNode::Constant(Value::Integer(42)));
    assert!(pattern.match_pattern(&Value::Integer(41)).is_err());
}

#[test]
fn pattern_well_formedness() {
    let good = Pattern::new(1, PatternNode::Variable { stack_slot: 0 });
    assert!(good.is_wf());
    let bad = Pattern::new(1, PatternNode::Variable { stack_slot: 1 });
    assert!(!bad.is_wf());
}
