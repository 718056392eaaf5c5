use moon_core::errors::{CodegenError, FileGroupError, RunnerError, TaskError};
use moon_core::style::{render_message, MessagePart, TextStyle};

fn plain_text(parts: &[MessagePart]) -> String {
    parts
        .iter()
        .map(|p| match p {
            MessagePart::Plain(t) => t.clone(),
            MessagePart::Styled(t, _) => t.clone(),
        })
        .collect()
}

#[test]
fn runner_error_messages() {
    let err = RunnerError::RunFailed {
        target: "app:build".into(),
        query: "moon query hash abc".into(),
        error: "exit 1".into(),
    };
    assert_eq!(
        plain_text(&err.parts()),
        "Task app:build failed to run. View hash details with moon query hash abc."
    );
    assert_eq!(err.code(), "target_runner::run_failed");
    assert!(err.message().contains("app:build"));

    let err = RunnerError::MissingDependencyHash("a:b".into(), "c:d".into());
    assert!(plain_text(&err.parts()).starts_with(
        "Encountered a missing hash for target a:b, which is a dependency of c:d.\nThis either"
    ));
    assert_eq!(err.code(), "target_runner::missing_dep_hash");

    let err = RunnerError::MissingOutput("a:b".into());
    assert_eq!(
        plain_text(&err.parts()),
        "Target a:b defines outputs, but none exist after being ran."
    );
    assert_eq!(err.code(), "target_runner::missing_output");
}

#[test]
fn runner_error_styles_its_values() {
    let err = RunnerError::RunFailed { target: "t".into(), query: "q".into(), error: "e".into() };
    let parts = err.parts();
    assert!(matches!(&parts[1], MessagePart::Styled(t, TextStyle::Label) if t == "t"));
    assert!(matches!(&parts[3], MessagePart::Styled(t, TextStyle::Shell) if t == "q"));
}

#[test]
fn task_error_messages() {
    let err = TaskError::NoAbsoluteOutput("/out".into(), "app:build".into());
    assert_eq!(
        plain_text(&err.parts()),
        "Task outputs must be project relative and cannot be absolute. Found /out in app:build."
    );
    let err = TaskError::NoParentOutput("../out".into(), "app:build".into());
    assert_eq!(
        plain_text(&err.parts()),
        "Task outputs must be project relative and cannot traverse upwards. Found ../out in app:build."
    );
    let err = TaskError::MissingOutput("app:build".into(), "dist".into());
    assert_eq!(
        plain_text(&err.parts()),
        "Target app:build defines the output dist, but this output does not exist after being ran."
    );
    let err = TaskError::InvalidEnvFile("/repo/.env".into(), "bad line".into());
    assert_eq!(plain_text(&err.parts()), "Failed to parse env file /repo/.env: bad line");
    let err = TaskError::ArgsParse("unclosed quote".into());
    assert_eq!(err.message(), "unclosed quote");
    let err = TaskError::FileGroup(FileGroupError::NoGlobs("sources".into()));
    assert_eq!(plain_text(&err.parts()), "No globs defined in file group sources.");
    assert!(err.message().contains("sources"));
}

#[test]
fn file_group_error_messages() {
    assert_eq!(FileGroupError::Glob("bad glob".into()).message(), "bad glob");
    assert_eq!(FileGroupError::Moon("oops".into()).message(), "oops");
}

#[test]
fn codegen_error_messages() {
    let err = CodegenError::ExistingTemplate("react".into(), "/templates/react".into());
    assert_eq!(
        plain_text(&err.parts()),
        "A template with the name react already exists at /templates/react."
    );
    assert_eq!(err.code(), "codegen::template::exists");
    assert!(err.source_error().is_none());

    let err = CodegenError::FailedToParseArgVar("name".into(), "missing value".into());
    assert_eq!(err.message(), "Failed to parse variable argument --name: missing value");
    assert_eq!(err.code(), "codegen::var::parse_failed");

    let err = CodegenError::MissingTemplate("vue".into());
    assert_eq!(
        plain_text(&err.parts()),
        "No template with the name vue could not be found at any of the configured template paths."
    );
    assert_eq!(err.code(), "codegen::template::missing");

    let err = CodegenError::RenderTemplateFileFailed {
        path: "/t/file.tera".into(),
        error: tera::Error::msg("boom"),
    };
    assert_eq!(plain_text(&err.parts()), "Failed to render template file /t/file.tera.");
    assert_eq!(err.code(), "codegen::template_file::render_failed");
    assert_eq!(err.source_error().unwrap().to_string(), "boom");

    let err = CodegenError::LoadTemplateFileFailed { path: "/t/x".into(), error: tera::Error::msg("x") };
    assert_eq!(err.code(), "codegen::template_file::load_failed");
    let err = CodegenError::InterpolateTemplateFileFailed {
        path: "{{ name }}.ts".into(),
        error: tera::Error::msg("x"),
    };
    assert_eq!(
        plain_text(&err.parts()),
        "Failed to interpolate variables into template file path {{ name }}.ts."
    );
    assert_eq!(err.code(), "codegen::template_file::interpolate_path");
}

#[test]
fn render_message_keeps_plain_parts_and_styled_text() {
    let parts = vec![
        MessagePart::Plain("a ".to_string()),
        MessagePart::Styled("b".to_string(), TextStyle::Label),
        MessagePart::Plain(" c".to_string()),
    ];
    let message = render_message(&parts);
    assert!(message.starts_with("a "));
    assert!(message.contains('b'));
    assert!(message.ends_with(" c"));
}
