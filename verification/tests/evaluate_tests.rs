use ggcode::evaluate::{evaluate, evaluate_nested, EvaluateError, EvaluationResult};
use ggcode::value::Value;

fn s(text: &str) -> Value {
    Value::Str(text.to_string())
}

fn tagged(tag: &str, inner: Value) -> Value {
    Value::Tagged(tag.to_string(), Box::new(inner))
}

#[test]
fn evaluate_transparent_sequence_test() {
    let source_value = Value::Sequence(vec![
        s("one"),
        s("two"),
        tagged(
            "TransparentSequence",
            Value::Sequence(vec![s("three-1"), s("three-2")]),
        ),
        s("four"),
    ]);
    let target_value = evaluate(&source_value).unwrap();
    let expected_value = Value::Sequence(vec![
        s("one"),
        s("two"),
        Value::Sequence(vec![s("three-1"), s("three-2")]),
        s("four"),
    ]);
    assert_eq!(target_value, expected_value);
}

#[test]
fn evaluate_merge_sequence_test() {
    let source_value = Value::Sequence(vec![
        s("one"),
        s("two"),
        tagged(
            "MergeSequence",
            Value::Sequence(vec![s("three-1"), s("three-2")]),
        ),
        s("four"),
    ]);
    let target_value = evaluate(&source_value).unwrap();
    let expected_value = Value::Sequence(vec![
        s("one"),
        s("two"),
        s("three-1"),
        s("three-2"),
        s("four"),
    ]);
    assert_eq!(target_value, expected_value);
}

#[test]
fn evaluate_transparent_mapping_test() {
    let source_value = Value::Mapping(vec![
        (s("one"), Value::Number(1)),
        (s("two"), Value::Number(2)),
        (
            s("three"),
            tagged(
                "TransparentMapping",
                Value::Mapping(vec![
                    (s("three-1"), s("3.1")),
                    (s("three-2"), s("3.2")),
                ]),
            ),
        ),
        (s("four"), Value::Number(4)),
    ]);
    let target_value = evaluate(&source_value).unwrap();
    let expected_value = Value::Mapping(vec![
        (s("one"), Value::Number(1)),
        (s("two"), Value::Number(2)),
        (
            s("three"),
            Value::Mapping(vec![
                (s("three-1"), s("3.1")),
                (s("three-2"), s("3.2")),
            ]),
        ),
        (s("four"), Value::Number(4)),
    ]);
    assert_eq!(target_value, expected_value);
}

#[test]
fn evaluate_merge_mapping_test() {
    let source_value = Value::Mapping(vec![
        (s("one"), Value::Number(1)),
        (s("two"), Value::Number(2)),
        (
            s("three"),
            tagged(
                "MergeMapping",
                Value::Mapping(vec![
                    (s("three-1"), s("3.1")),
                    (s("three-2"), s("3.2")),
                ]),
            ),
        ),
        (s("four"), Value::Number(4)),
    ]);
    let target_value = evaluate(&source_value).unwrap();
    let expected_value = Value::Mapping(vec![
        (s("one"), Value::Number(1)),
        (s("two"), Value::Number(2)),
        (s("three-1"), s("3.1")),
        (s("three-2"), s("3.2")),
        (s("four"), Value::Number(4)),
    ]);
    assert_eq!(target_value, expected_value);
}

#[test]
fn evaluate_bash_command_test() {
    let source_value = Value::Sequence(vec![Value::Mapping(vec![
        (s("input"), s("echo 'Hello!'")),
        (s("output"), tagged("Shell", s("echo 'Hello!'"))),
    ])]);
    let target_value = evaluate(&source_value).unwrap();
    let expected_value = Value::Sequence(vec![Value::Mapping(vec![
        (s("input"), s("echo 'Hello!'")),
        (s("output"), s("Hello!\n")),
    ])]);
    assert_eq!(target_value, expected_value);
}

#[test]
fn read_write_ascii_control_chars() {
    println!("\\u001b[32mdev@pc\\u001b[00m:\\u001b[34m~/my-application\\u001b[00m$ ");
    println!("\x1b[32mdev@pc\x1b[00m:\x1b[34m~/my-application\x1b[00m$ ");
}

#[test]
fn test_command() {}

#[test]
fn evaluate_shell_insert_test() {
    let result = evaluate_nested(&tagged("Shell", s("echo hello"))).unwrap();
    assert_eq!(
        result,
        EvaluationResult::Insert(Value::Str("hello\n".to_string()))
    );
}

#[test]
fn evaluate_shell_escapes_tab_test() {
    let result = evaluate(&tagged("Shell", s("printf 'a\tb'"))).unwrap();
    assert_eq!(result, Value::Str("a\\tb".to_string()));
}

#[test]
fn evaluate_numeric_splice_test() {
    let source = Value::Sequence(vec![
        Value::Number(1),
        Value::Number(2),
        tagged(
            "MergeSequence",
            Value::Sequence(vec![Value::Number(3), Value::Number(4)]),
        ),
        Value::Number(5),
    ]);
    let expected = Value::Sequence(vec![
        Value::Number(1),
        Value::Number(2),
        Value::Number(3),
        Value::Number(4),
        Value::Number(5),
    ]);
    assert_eq!(evaluate(&source).unwrap(), expected);
}

#[test]
fn evaluate_identity_on_untagged_test() {
    let v = Value::Mapping(vec![
        (s("a"), Value::Number(1)),
        (
            s("b"),
            Value::Sequence(vec![Value::Bool(true), Value::Null, s("x")]),
        ),
    ]);
    let copy = Value::Mapping(vec![
        (s("a"), Value::Number(1)),
        (
            s("b"),
            Value::Sequence(vec![Value::Bool(true), Value::Null, s("x")]),
        ),
    ]);
    assert_eq!(evaluate(&v).unwrap(), copy);
}

#[test]
fn evaluate_unknown_tag_test() {
    let err = evaluate(&tagged("Mystery", Value::Null)).unwrap_err();
    assert_eq!(err, EvaluateError::UnknownTag);
}

#[test]
fn evaluate_bad_payload_test() {
    let err = evaluate(&tagged("TransparentSequence", Value::Null)).unwrap_err();
    assert_eq!(err, EvaluateError::InvalidTagPayload);
}

#[test]
fn evaluate_invalid_merge_test() {
    let source = Value::Sequence(vec![tagged(
        "MergeMapping",
        Value::Mapping(vec![(s("x"), Value::Number(1))]),
    )]);
    let err = evaluate(&source).unwrap_err();
    assert_eq!(err, EvaluateError::InvalidMerge);
}

#[test]
fn evaluate_numeric_transparent_test() {
    let source = Value::Sequence(vec![
        Value::Number(1),
        Value::Number(2),
        tagged(
            "TransparentSequence",
            Value::Sequence(vec![Value::Number(3), Value::Number(4)]),
        ),
        Value::Number(5),
    ]);
    let expected = Value::Sequence(vec![
        Value::Number(1),
        Value::Number(2),
        Value::Sequence(vec![Value::Number(3), Value::Number(4)]),
        Value::Number(5),
    ]);
    assert_eq!(evaluate(&source).unwrap(), expected);
}

#[test]
fn evaluate_transparent_mapping_slot_test() {
    let source = Value::Mapping(vec![
        (s("a"), Value::Number(1)),
        (
            s("b"),
            tagged(
                "TransparentMapping",
                Value::Mapping(vec![(s("x"), Value::Number(1)), (s("y"), Value::Number(2))]),
            ),
        ),
    ]);
    let expected = Value::Mapping(vec![
        (s("a"), Value::Number(1)),
        (
            s("b"),
            Value::Mapping(vec![(s("x"), Value::Number(1)), (s("y"), Value::Number(2))]),
        ),
    ]);
    assert_eq!(evaluate(&source).unwrap(), expected);
}

#[test]
fn evaluate_merge_mapping_splice_test() {
    let source = Value::Mapping(vec![
        (s("a"), Value::Number(1)),
        (
            s("b"),
            tagged(
                "MergeMapping",
                Value::Mapping(vec![(s("x"), Value::Number(1)), (s("y"), Value::Number(2))]),
            ),
        ),
    ]);
    let expected = Value::Mapping(vec![
        (s("a"), Value::Number(1)),
        (s("x"), Value::Number(1)),
        (s("y"), Value::Number(2)),
    ]);
    assert_eq!(evaluate(&source).unwrap(), expected);
}
