use ggcode::ansi::format_ansi;
use ggcode::errors::{describe_error, ErrorDescription};
use ggcode::evaluate::escape_output;
use ggcode::generator::{
    emit_action, plan_template, DefaultGenerator, EmitAction, GeneratorEvent,
    GeneratorObserver, RenderEngine,
};
use ggcode::renderer::{LuauTemplate, NoopRenderer, RendererBuilder};
use ggcode::value::Value;

#[test]
fn format_ansi_style_test() {
    let value = "[style:bu]-h, --help[style:r]\t\tDisplay help".to_string();
    let result_string = format_ansi(&value);
    assert_eq!(result_string, "\\u001b[01;04m-h, --help\\u001b[00m\t\tDisplay help");
}

#[test]
fn format_ansi_color_test() {
    let value = "[color:g]dev@pc[style:r]".to_string();
    let result_string = format_ansi(&value);
    assert_eq!(result_string, "\\u001b[32mdev@pc\\u001b[00m");
}

#[test]
fn format_ansi_keeps_unmatched_test() {
    let value = "[style:zz] stays [color:] too".to_string();
    assert_eq!(format_ansi(&value), "[style:zz] stays [color:] too");
}

#[test]
fn plan_template_dispatch_test() {
    let (engine, out) = plan_template(&"src/main.rs.tera".to_string());
    assert_eq!(engine, RenderEngine::Structured);
    assert_eq!(out, "src/main.rs");

    let (engine, out) = plan_template(&"gen/build.luau".to_string());
    assert_eq!(engine, RenderEngine::Scripting);
    assert_eq!(out, "gen/build");

    let (engine, out) = plan_template(&"README.md".to_string());
    assert_eq!(engine, RenderEngine::PassThrough);
    assert_eq!(out, "README.md");
}

#[test]
fn emit_action_policy_test() {
    match emit_action(&"dir/!notes.md".to_string(), false) {
        EmitAction::Skip => {}
        _ => panic!("a bang basename must be skipped"),
    }
    match emit_action(&"dir/+gitignore".to_string(), false) {
        EmitAction::Write { path, protect } => {
            assert_eq!(path, "dir/gitignore");
            assert!(!protect);
        }
        _ => panic!("a plus basename must write the stripped sibling"),
    }
    match emit_action(&"dir/main.rs".to_string(), false) {
        EmitAction::Write { path, protect } => {
            assert_eq!(path, "dir/main.rs");
            assert!(protect);
        }
        _ => panic!("a plain basename must write with protection"),
    }
}

#[test]
fn emit_action_dry_run_test() {
    match emit_action(&"dir/!notes.md".to_string(), true) {
        EmitAction::Report => {}
        _ => panic!("a dry run only reports"),
    }
    match emit_action(&"dir/main.rs".to_string(), true) {
        EmitAction::Report => {}
        _ => panic!("a dry run only reports"),
    }
}

struct Recorder {
    seen: Vec<String>,
}

impl GeneratorObserver for Recorder {
    fn on_notify(&mut self, event: &GeneratorEvent) {
        match event {
            GeneratorEvent::Start(m) => self.seen.push(format!("start:{}", m)),
            GeneratorEvent::Message(m) => self.seen.push(format!("message:{}", m)),
            GeneratorEvent::Finish(m) => self.seen.push(format!("finish:{}", m)),
        }
    }
}

#[test]
fn generator_notify_test() {
    let context = ggcode::ResolvedContext {
        config_path: "ggcode-info.yaml".to_string(),
        directory_path: "/work".to_string(),
        directory_name: "work".to_string(),
        current_config: ggcode::config::PackageConfig {
            name: "app".to_string(),
            actions: vec![],
            scrolls: vec![],
            repositories: vec![],
            targets: vec![],
        },
    };
    let mut generator: DefaultGenerator<Recorder> = DefaultGenerator {
        context,
        observers: vec![],
    };
    generator.add_observer(Recorder { seen: vec![] });
    generator.notify(&GeneratorEvent::Start("one".to_string()));
    generator.notify(&GeneratorEvent::Finish("two".to_string()));
    assert_eq!(
        generator.observers[0].seen,
        vec!["start:one".to_string(), "finish:two".to_string()]
    );
}

#[test]
fn noop_renderer_render_test() {
    let builder = RendererBuilder::new()
        .with_value("foo".to_string(), Value::Str("one".to_string()))
        .with_value("bar".to_string(), Value::Str("two".to_string()))
        .with_value("baz".to_string(), Value::Str("3".to_string()))
        .with_raw_template("NOOP.txt".to_string(), "Some template content".to_string());
    let renderer: NoopRenderer = builder.build_noop(vec![]);
    let result = renderer.render(&"NOOP.txt".to_string()).unwrap();
    assert_eq!(result, "Some template content");
}

#[test]
fn noop_renderer_unknown_test() {
    let builder = RendererBuilder::new();
    let renderer = builder.build_noop(vec![]);
    let err = renderer.render(&"MISSING".to_string()).unwrap_err();
    assert_eq!(err, "No template: MISSING");
}

#[test]
fn luau_template_buffer_test() {
    let mut buffer = LuauTemplate { st: String::new() };
    buffer.print("a");
    buffer.println("b");
    buffer.print("c");
    assert_eq!(buffer.st, "ab\nc");
}

#[test]
fn escape_output_test() {
    assert_eq!(escape_output(&"plain\n".to_string()), "plain\n");
    assert_eq!(escape_output(&"a\tb".to_string()), "a\\tb");
    assert_eq!(escape_output(&"\x1b[32m".to_string()), "\\u001b[32m");
}

#[test]
fn describe_error_bracket_test() {
    let message = "runtime error: [string \"SAMPLE.txt\"]:3: attempt to call a nil value"
        .to_string();
    let described = describe_error(&message).unwrap();
    let ErrorDescription::SourceError(data) = described;
    assert_eq!(data.location, "SAMPLE.txt");
    assert_eq!(data.line, 2);
    assert_eq!(data.details, "attempt to call a nil value");
    assert!(!data.is_pointed);
}

#[test]
fn describe_error_plain_test() {
    let message = "chunk.luau:12: unexpected symbol".to_string();
    let described = describe_error(&message).unwrap();
    let ErrorDescription::SourceError(data) = described;
    assert_eq!(data.location, "chunk.luau");
    assert_eq!(data.line, 11);
    assert_eq!(data.details, "unexpected symbol");
    assert!(data.is_pointed);
}

#[test]
fn describe_error_overflow_test() {
    let message = "some context\nC stack overflow\nmore".to_string();
    let described = describe_error(&message).unwrap();
    let ErrorDescription::SourceError(data) = described;
    assert_eq!(data.location, "");
    assert_eq!(data.line, 0);
    assert_eq!(data.details, message);
    assert!(!data.is_pointed);
}

#[test]
fn describe_error_unrecognized_test() {
    assert!(describe_error(&"no pattern here".to_string()).is_none());
}

#[test]
fn tera_renderer_test() {
    let builder = RendererBuilder::new()
        .with_value("foo".to_string(), Value::Str("one".to_string()))
        .with_value("bar".to_string(), Value::Str("two".to_string()))
        .with_value("baz".to_string(), Value::Str("3".to_string()))
        .with_raw_template(
            "SAMPLE.txt".to_string(),
            "foo: one = {{foo}}, bar: two = {{bar}}, baz: 3 = {{baz}}".to_string(),
        );
    let renderer = builder.build_tera(&vec![]).unwrap();
    let result = renderer.render(&"SAMPLE.txt".to_string()).unwrap();
    assert_eq!(result, "foo: one = one, bar: two = two, baz: 3 = 3");
}

#[test]
fn tera_renderer_unknown_template_test() {
    let renderer = RendererBuilder::new().build_tera(&vec![]).unwrap();
    assert!(renderer.render(&"MISSING.txt".to_string()).is_err());
}

#[test]
fn tera_renderer_invalid_source_test() {
    let builder = RendererBuilder::new()
        .with_raw_template("BAD.txt".to_string(), "{{ unclosed".to_string());
    assert!(builder.build_tera(&vec![]).is_err());
}

#[test]
fn describe_error_huge_line_number_test() {
    let message = "chunk.luau:99999999999999999999999: too far".to_string();
    assert!(describe_error(&message).is_none());
}

#[test]
fn tera_renderer_ansi_filter_test() {
    let builder = RendererBuilder::new()
        .with_value("msg".to_string(), Value::Str("[color:g]ok[style:r]".to_string()))
        .with_raw_template(
            "F.txt".to_string(),
            "{{ msg | format_ansi }}".to_string(),
        );
    let renderer = builder.build_tera(&vec![]).unwrap();
    let result = renderer.render(&"F.txt".to_string()).unwrap();
    assert_eq!(result, "\\u001b[32mok\\u001b[00m");
}

#[test]
fn named_values_test() {
    let variables = Value::Mapping(vec![
        (Value::Str("env".to_string()), Value::Str("prod".to_string())),
        (Value::Number(7), Value::Str("dropped".to_string())),
        (Value::Str("count".to_string()), Value::Number(3)),
    ]);
    let values = ggcode::generator::named_values(&"@/web".to_string(), variables).unwrap();
    assert_eq!(values.len(), 2);
    assert_eq!(values[0].0, "env");
    assert_eq!(values[1], ("count".to_string(), Value::Number(3)));
}

#[test]
fn named_values_invalid_root_test() {
    let err = ggcode::generator::named_values(
        &"@/web".to_string(),
        Value::Sequence(vec![Value::Number(1)]),
    )
    .unwrap_err();
    assert_eq!(err, "Cannot generate content using @/web scroll. Invalid variables.");
}
