use ggcode::paths::{normalize_path, resolve_inner_path, resolve_package_path};
use ggcode::luau::{LuauJson, LuauUuid};
use ggcode::utils::merge_yaml;
use ggcode::value::{value_eq, Value};

fn s(text: &str) -> Value {
    Value::Str(text.to_string())
}

#[test]
fn merge_yaml_nested_test() {
    let mut target = Value::Mapping(vec![(
        s("sub"),
        Value::Mapping(vec![(s("a"), Value::Number(1))]),
    )]);
    let incoming = Value::Mapping(vec![(
        s("sub"),
        Value::Mapping(vec![(s("b"), Value::Number(2))]),
    )]);
    merge_yaml(&mut target, incoming);
    let expected = Value::Mapping(vec![(
        s("sub"),
        Value::Mapping(vec![(s("a"), Value::Number(1)), (s("b"), Value::Number(2))]),
    )]);
    assert_eq!(target, expected);
}

#[test]
fn merge_yaml_overwrites_scalar_test() {
    let mut target = Value::Mapping(vec![(s("k"), Value::Number(1))]);
    let incoming = Value::Mapping(vec![(s("k"), Value::Number(2))]);
    merge_yaml(&mut target, incoming);
    assert_eq!(target, Value::Mapping(vec![(s("k"), Value::Number(2))]));
}

#[test]
fn merge_yaml_replaces_other_kinds_test() {
    let mut target = Value::Sequence(vec![Value::Number(1)]);
    let incoming = Value::Mapping(vec![(s("k"), Value::Number(2))]);
    merge_yaml(&mut target, incoming);
    assert_eq!(target, Value::Mapping(vec![(s("k"), Value::Number(2))]));
}

#[test]
fn merge_yaml_directory_lift_test() {
    // A file at sub/dir/name with content {k: v} merges into
    // {sub: {dir: {name: {k: v}}}}.
    let mut acc = Value::Mapping(vec![]);
    let lifted = Value::Mapping(vec![(
        s("sub"),
        Value::Mapping(vec![(
            s("dir"),
            Value::Mapping(vec![(
                s("name"),
                Value::Mapping(vec![(s("k"), s("v"))]),
            )]),
        )]),
    )]);
    let expected = Value::Mapping(vec![(
        s("sub"),
        Value::Mapping(vec![(
            s("dir"),
            Value::Mapping(vec![(
                s("name"),
                Value::Mapping(vec![(s("k"), s("v"))]),
            )]),
        )]),
    )]);
    merge_yaml(&mut acc, lifted);
    assert_eq!(acc, expected);
}

#[test]
fn value_eq_deep_test() {
    let a = Value::Sequence(vec![s("x"), Value::Mapping(vec![(s("k"), Value::Null)])]);
    let b = Value::Sequence(vec![s("x"), Value::Mapping(vec![(s("k"), Value::Null)])]);
    let c = Value::Sequence(vec![s("x"), Value::Mapping(vec![(s("k"), Value::Bool(false))])]);
    assert!(value_eq(&a, &b));
    assert!(!value_eq(&a, &c));
}

#[test]
fn lift_under_test() {
    let content = Value::Mapping(vec![(s("k"), s("v"))]);
    let lifted = ggcode::utils::lift_under(
        &vec!["sub".to_string(), "dir".to_string()],
        &"name".to_string(),
        content,
    );
    let expected = Value::Mapping(vec![(
        s("sub"),
        Value::Mapping(vec![(
            s("dir"),
            Value::Mapping(vec![(
                s("name"),
                Value::Mapping(vec![(s("k"), s("v"))]),
            )]),
        )]),
    )]);
    assert_eq!(lifted, expected);
}

#[test]
fn normalize_path_test() {
    assert_eq!(normalize_path(&".".to_string()), "");
    assert_eq!(normalize_path(&"../some".to_string()), "../some");
    assert_eq!(normalize_path(&"../some/".to_string()), "../some");
    assert_eq!(normalize_path(&"./some/inner".to_string()), "some/inner");
    assert_eq!(normalize_path(&"some/../other/inner".to_string()), "other/inner");
}

#[test]
fn resolve_inner_path_test() {
    assert_eq!(resolve_inner_path(&"a/./b".to_string()).unwrap(), "a/b");
    assert_eq!(
        resolve_inner_path(&"../a".to_string()).unwrap_err(),
        "Invalid path: ../a. Could not leave base directory."
    );
    assert_eq!(
        resolve_inner_path(&"".to_string()).unwrap_err(),
        "Invalid path. Path should not be empty."
    );
}

#[test]
fn resolve_package_path_test() {
    assert_eq!(resolve_package_path(&"@/scrolls/web".to_string()).unwrap(), "scrolls/web");
    assert_eq!(
        resolve_package_path(&"base/scrolls/svc".to_string()).unwrap(),
        "ggcode_modules/base/scrolls/svc"
    );
}

#[test]
fn mod_read_write_ascii_control_chars() {
    println!("\\u001b[32mdev@pc\\u001b[00m:\\u001b[34m~/my-application\\u001b[00m$ ");
    println!("\x1b[32mdev@pc\x1b[00m:\x1b[34m~/my-application\x1b[00m$ ");
}

#[test]
fn json_stringify_test() {
    let v = Value::Mapping(vec![
        (s("name"), s("it \"works\"")),
        (s("count"), Value::Number(-12)),
        (
            s("items"),
            Value::Sequence(vec![Value::Bool(true), Value::Null, Value::Number(305)]),
        ),
    ]);
    assert_eq!(
        LuauJson::stringify(&v).unwrap(),
        "{\"name\":\"it \\\"works\\\"\",\"count\":-12,\"items\":[true,null,305]}"
    );
}

#[test]
fn json_stringify_escapes_controls_test() {
    let v = Value::Str("a\tb\nc\x01".to_string());
    assert_eq!(LuauJson::stringify(&v).unwrap(), "\"a\\tb\\nc\\u0001\"");
}

#[test]
fn json_stringify_rejects_tagged_test() {
    let v = Value::Tagged("Shell".to_string(), Box::new(Value::Null));
    assert!(LuauJson::stringify(&v).is_err());
}

#[test]
fn uuid_v4_format_test() {
    let one = LuauUuid::v4();
    let two = LuauUuid::v4();
    assert_ne!(one, two);
    for id in [&one, &two] {
        assert_eq!(id.len(), 36);
        for (i, c) in id.chars().enumerate() {
            if i == 8 || i == 13 || i == 18 || i == 23 {
                assert_eq!(c, '-');
            } else {
                assert!(c.is_ascii_hexdigit() && !c.is_ascii_uppercase());
            }
        }
        assert_eq!(id.chars().nth(14), Some('4'));
    }
}

#[test]
fn merge_variable_files_test() {
    let files = vec![
        (
            vec!["sub".to_string()],
            "first".to_string(),
            Value::Mapping(vec![(s("a"), Value::Number(1))]),
        ),
        (
            vec!["sub".to_string()],
            "first".to_string(),
            Value::Mapping(vec![(s("a"), Value::Number(2)), (s("b"), Value::Number(3))]),
        ),
        (
            vec![],
            "second".to_string(),
            Value::Bool(true),
        ),
    ];
    let merged = ggcode::utils::merge_variable_files(files);
    let expected = Value::Mapping(vec![
        (
            s("sub"),
            Value::Mapping(vec![(
                s("first"),
                Value::Mapping(vec![(s("a"), Value::Number(2)), (s("b"), Value::Number(3))]),
            )]),
        ),
        (s("second"), Value::Bool(true)),
    ]);
    assert_eq!(merged, expected);
}
