//! The errors of the task runner, task configuration and code generator:
//! what each message says, which values in it are styled, and its
//! diagnostic code.

use crate::style::{part_views, render_message, renders, MessagePart, PartView, TextStyle};
use vstd::prelude::*;

verus! {

/// A part of plain text.
fn plain(text: &str) -> (part: MessagePart)
    ensures
        part@ == PartView::Plain(text@),
{
    MessagePart::Plain(String::from_str(text))
}

/// A part of text painted in `style`.
fn styled(text: &String, style: TextStyle) -> (part: MessagePart)
    ensures
        part@ == PartView::Styled(text@, style),
{
    MessagePart::Styled(text.clone(), style)
}

/// A part carrying another error's own message.
fn carried(text: &String) -> (part: MessagePart)
    ensures
        part@ == PartView::Plain(text@),
{
    MessagePart::Plain(text.clone())
}

/// Failures while running a task's target.
pub enum RunnerError {
    /// The task's process failed; `error` is the process error's message.
    RunFailed { target: String, query: String, error: String },
    /// A dependency of the second target has no hash for the first.
    MissingDependencyHash(String, String),
    /// The target declares outputs but produced none.
    MissingOutput(String),
}

impl RunnerError {
    /// The parts of the message, in order.
    pub open spec fn message_parts(&self) -> Seq<PartView> {
        match self {
            RunnerError::RunFailed { target, query, .. } => seq![
                PartView::Plain("Task "@),
                PartView::Styled(target@, TextStyle::Label),
                PartView::Plain(" failed to run. View hash details with "@),
                PartView::Styled(query@, TextStyle::Shell),
                PartView::Plain("."@),
            ],
            RunnerError::MissingDependencyHash(target, dependent) => seq![
                PartView::Plain("Encountered a missing hash for target "@),
                PartView::Styled(target@, TextStyle::Label),
                PartView::Plain(", which is a dependency of "@),
                PartView::Styled(dependent@, TextStyle::Label),
                PartView::Plain(".\nThis either means the dependency hasn't ran, has failed, or there's a misconfiguration.\n\nTry disabling the target's cache, or marking it as local."@),
            ],
            RunnerError::MissingOutput(target) => seq![
                PartView::Plain("Target "@),
                PartView::Styled(target@, TextStyle::Label),
                PartView::Plain(" defines outputs, but none exist after being ran."@),
            ],
        }
    }

    /// The parts of the message.
    pub fn parts(&self) -> (parts: Vec<MessagePart>)
        ensures
            part_views(parts@) == self.message_parts(),
    {
        let parts = match self {
            RunnerError::RunFailed { target, query, .. } => vec![
                plain("Task "),
                styled(target, TextStyle::Label),
                plain(" failed to run. View hash details with "),
                styled(query, TextStyle::Shell),
                plain("."),
            ],
            RunnerError::MissingDependencyHash(target, dependent) => vec![
                plain("Encountered a missing hash for target "),
                styled(target, TextStyle::Label),
                plain(", which is a dependency of "),
                styled(dependent, TextStyle::Label),
                plain(".\nThis either means the dependency hasn't ran, has failed, or there's a misconfiguration.\n\nTry disabling the target's cache, or marking it as local."),
            ],
            RunnerError::MissingOutput(target) => vec![
                plain("Target "),
                styled(target, TextStyle::Label),
                plain(" defines outputs, but none exist after being ran."),
            ],
        };
        assert(part_views(parts@) =~= self.message_parts());
        parts
    }

    /// The message as the terminal shows it.
    pub fn message(&self) -> (message: String)
        ensures
            renders(self.message_parts(), message@),
    {
        render_message(&self.parts())
    }

    /// The diagnostic code.
    pub fn code(&self) -> (code: &'static str)
        ensures
            code@ == match self {
                RunnerError::RunFailed { .. } => "target_runner::run_failed"@,
                RunnerError::MissingDependencyHash(..) => "target_runner::missing_dep_hash"@,
                RunnerError::MissingOutput(..) => "target_runner::missing_output"@,
            },
    {
        match self {
            RunnerError::RunFailed { .. } => "target_runner::run_failed",
            RunnerError::MissingDependencyHash(..) => "target_runner::missing_dep_hash",
            RunnerError::MissingOutput(..) => "target_runner::missing_output",
        }
    }
}

/// Failures while resolving a file group.
pub enum FileGroupError {
    /// The named file group defines no globs.
    NoGlobs(String),
    /// A glob failed; the glob error's own message.
    Glob(String),
    /// A general failure; its own message.
    Moon(String),
}

impl FileGroupError {
    /// The parts of the message, in order.
    pub open spec fn message_parts(&self) -> Seq<PartView> {
        match self {
            FileGroupError::NoGlobs(group) => seq![
                PartView::Plain("No globs defined in file group "@),
                PartView::Styled(group@, TextStyle::Id),
                PartView::Plain("."@),
            ],
            FileGroupError::Glob(message) => seq![PartView::Plain(message@)],
            FileGroupError::Moon(message) => seq![PartView::Plain(message@)],
        }
    }

    /// The parts of the message.
    pub fn parts(&self) -> (parts: Vec<MessagePart>)
        ensures
            part_views(parts@) == self.message_parts(),
    {
        let parts = match self {
            FileGroupError::NoGlobs(group) => vec![
                plain("No globs defined in file group "),
                styled(group, TextStyle::Id),
                plain("."),
            ],
            FileGroupError::Glob(message) => vec![carried(message)],
            FileGroupError::Moon(message) => vec![carried(message)],
        };
        assert(part_views(parts@) =~= self.message_parts());
        parts
    }

    /// The message as the terminal shows it.
    pub fn message(&self) -> (message: String)
        ensures
            renders(self.message_parts(), message@),
    {
        render_message(&self.parts())
    }
}

/// Failures in a task's configuration and outputs.
pub enum TaskError {
    /// The env file at the path could not be parsed; the parser's message.
    InvalidEnvFile(String, String),
    /// The output (first) of the target (second) is an absolute path.
    NoAbsoluteOutput(String, String),
    /// The output (first) of the target (second) leaves the project.
    NoParentOutput(String, String),
    /// The target (first) did not produce the output (second).
    MissingOutput(String, String),
    /// Task arguments could not be parsed; the parser's message.
    ArgsParse(String),
    /// A file group failed.
    FileGroup(FileGroupError),
    /// A general failure; its own message.
    Moon(String),
    /// A target could not be parsed; its own message.
    Target(String),
}

impl TaskError {
    /// The parts of the message, in order.
    pub open spec fn message_parts(&self) -> Seq<PartView> {
        match self {
            TaskError::InvalidEnvFile(path, reason) => seq![
                PartView::Plain("Failed to parse env file "@),
                PartView::Styled(path@, TextStyle::Path),
                PartView::Plain(": "@),
                PartView::Plain(reason@),
            ],
            TaskError::NoAbsoluteOutput(output, target) => seq![
                PartView::Plain(
                    "Task outputs must be project relative and cannot be absolute. Found "@,
                ),
                PartView::Styled(output@, TextStyle::File),
                PartView::Plain(" in "@),
                PartView::Styled(target@, TextStyle::Label),
                PartView::Plain("."@),
            ],
            TaskError::NoParentOutput(output, target) => seq![
                PartView::Plain(
                    "Task outputs must be project relative and cannot traverse upwards. Found "@,
                ),
                PartView::Styled(output@, TextStyle::File),
                PartView::Plain(" in "@),
                PartView::Styled(target@, TextStyle::Label),
                PartView::Plain("."@),
            ],
            TaskError::MissingOutput(target, output) => seq![
                PartView::Plain("Target "@),
                PartView::Styled(target@, TextStyle::Label),
                PartView::Plain(" defines the output "@),
                PartView::Styled(output@, TextStyle::File),
                PartView::Plain(", but this output does not exist after being ran."@),
            ],
            TaskError::ArgsParse(message) => seq![PartView::Plain(message@)],
            TaskError::FileGroup(inner) => inner.message_parts(),
            TaskError::Moon(message) => seq![PartView::Plain(message@)],
            TaskError::Target(message) => seq![PartView::Plain(message@)],
        }
    }

    /// The parts of the message.
    pub fn parts(&self) -> (parts: Vec<MessagePart>)
        ensures
            part_views(parts@) == self.message_parts(),
    {
        let parts = match self {
            TaskError::InvalidEnvFile(path, reason) => vec![
                plain("Failed to parse env file "),
                styled(path, TextStyle::Path),
                plain(": "),
                carried(reason),
            ],
            TaskError::NoAbsoluteOutput(output, target) => vec![
                plain("Task outputs must be project relative and cannot be absolute. Found "),
                styled(output, TextStyle::File),
                plain(" in "),
                styled(target, TextStyle::Label),
                plain("."),
            ],
            TaskError::NoParentOutput(output, target) => vec![
                plain("Task outputs must be project relative and cannot traverse upwards. Found "),
                styled(output, TextStyle::File),
                plain(" in "),
                styled(target, TextStyle::Label),
                plain("."),
            ],
            TaskError::MissingOutput(target, output) => vec![
                plain("Target "),
                styled(target, TextStyle::Label),
                plain(" defines the output "),
                styled(output, TextStyle::File),
                plain(", but this output does not exist after being ran."),
            ],
            TaskError::ArgsParse(message) => vec![carried(message)],
            TaskError::FileGroup(inner) => inner.parts(),
            TaskError::Moon(message) => vec![carried(message)],
            TaskError::Target(message) => vec![carried(message)],
        };
        assert(part_views(parts@) =~= self.message_parts());
        parts
    }

    /// The message as the terminal shows it.
    pub fn message(&self) -> (message: String)
        ensures
            renders(self.message_parts(), message@),
    {
        render_message(&self.parts())
    }
}

/// `tera::Error`, the template engine's error, carried as the source of a
/// code generation failure.
#[verifier::external_type_specification]
#[verifier::external_body]
pub struct ExTeraError(tera::Error);

/// Failures while generating code from templates.
pub enum CodegenError {
    /// A template with the name (first) already exists at the path (second).
    ExistingTemplate(String, String),
    /// The variable argument (first) could not be parsed; the reason (second).
    FailedToParseArgVar(String, String),
    /// No template with the name exists in any template location.
    MissingTemplate(String),
    /// The template file at `path` could not be loaded.
    LoadTemplateFileFailed { path: String, error: tera::Error },
    /// The template file at `path` could not be rendered.
    RenderTemplateFileFailed { path: String, error: tera::Error },
    /// Variables could not be interpolated into the template file path.
    InterpolateTemplateFileFailed { path: String, error: tera::Error },
}

impl CodegenError {
    /// The parts of the message, in order.
    pub open spec fn message_parts(&self) -> Seq<PartView> {
        match self {
            CodegenError::ExistingTemplate(name, path) => seq![
                PartView::Plain("A template with the name "@),
                PartView::Styled(name@, TextStyle::Id),
                PartView::Plain(" already exists at "@),
                PartView::Styled(path@, TextStyle::Path),
                PartView::Plain("."@),
            ],
            CodegenError::FailedToParseArgVar(name, reason) => seq![
                PartView::Plain("Failed to parse variable argument --"@),
                PartView::Plain(name@),
                PartView::Plain(": "@),
                PartView::Plain(reason@),
            ],
            CodegenError::MissingTemplate(name) => seq![
                PartView::Plain("No template with the name "@),
                PartView::Styled(name@, TextStyle::Id),
                PartView::Plain(
                    " could not be found at any of the configured template paths."@,
                ),
            ],
            CodegenError::LoadTemplateFileFailed { path, .. } => seq![
                PartView::Plain("Failed to load template file "@),
                PartView::Styled(path@, TextStyle::Path),
                PartView::Plain("."@),
            ],
            CodegenError::RenderTemplateFileFailed { path, .. } => seq![
                PartView::Plain("Failed to render template file "@),
                PartView::Styled(path@, TextStyle::Path),
                PartView::Plain("."@),
            ],
            CodegenError::InterpolateTemplateFileFailed { path, .. } => seq![
                PartView::Plain("Failed to interpolate variables into template file path "@),
                PartView::Styled(path@, TextStyle::File),
                PartView::Plain("."@),
            ],
        }
    }

    /// The parts of the message.
    pub fn parts(&self) -> (parts: Vec<MessagePart>)
        ensures
            part_views(parts@) == self.message_parts(),
    {
        let parts = match self {
            CodegenError::ExistingTemplate(name, path) => vec![
                plain("A template with the name "),
                styled(name, TextStyle::Id),
                plain(" already exists at "),
                styled(path, TextStyle::Path),
                plain("."),
            ],
            CodegenError::FailedToParseArgVar(name, reason) => vec![
                plain("Failed to parse variable argument --"),
                carried(name),
                plain(": "),
                carried(reason),
            ],
            CodegenError::MissingTemplate(name) => vec![
                plain("No template with the name "),
                styled(name, TextStyle::Id),
                plain(" could not be found at any of the configured template paths."),
            ],
            CodegenError::LoadTemplateFileFailed { path, .. } => vec![
                plain("Failed to load template file "),
                styled(path, TextStyle::Path),
                plain("."),
            ],
            CodegenError::RenderTemplateFileFailed { path, .. } => vec![
                plain("Failed to render template file "),
                styled(path, TextStyle::Path),
                plain("."),
            ],
            CodegenError::InterpolateTemplateFileFailed { path, .. } => vec![
                plain("Failed to interpolate variables into template file path "),
                styled(path, TextStyle::File),
                plain("."),
            ],
        };
        assert(part_views(parts@) =~= self.message_parts());
        parts
    }

    /// The message as the terminal shows it.
    pub fn message(&self) -> (message: String)
        ensures
            renders(self.message_parts(), message@),
    {
        render_message(&self.parts())
    }

    /// The diagnostic code.
    pub fn code(&self) -> (code: &'static str)
        ensures
            code@ == match self {
                CodegenError::ExistingTemplate(..) => "codegen::template::exists"@,
                CodegenError::FailedToParseArgVar(..) => "codegen::var::parse_failed"@,
                CodegenError::MissingTemplate(..) => "codegen::template::missing"@,
                CodegenError::LoadTemplateFileFailed { .. } => "codegen::template_file::load_failed"@,
                CodegenError::RenderTemplateFileFailed { .. } => "codegen::template_file::render_failed"@,
                CodegenError::InterpolateTemplateFileFailed {
                    ..
                } => "codegen::template_file::interpolate_path"@,
            },
    {
        match self {
            CodegenError::ExistingTemplate(..) => "codegen::template::exists",
            CodegenError::FailedToParseArgVar(..) => "codegen::var::parse_failed",
            CodegenError::MissingTemplate(..) => "codegen::template::missing",
            CodegenError::LoadTemplateFileFailed { .. } => "codegen::template_file::load_failed",
            CodegenError::RenderTemplateFileFailed { .. } => "codegen::template_file::render_failed",
            CodegenError::InterpolateTemplateFileFailed {
                ..
            } => "codegen::template_file::interpolate_path",
        }
    }

    /// The template engine's error behind the failure, where there is one.
    pub fn source_error(&self) -> (source: Option<&tera::Error>)
        ensures
            source == match self {
                CodegenError::LoadTemplateFileFailed { error, .. } => Some(error),
                CodegenError::RenderTemplateFileFailed { error, .. } => Some(error),
                CodegenError::InterpolateTemplateFileFailed { error, .. } => Some(error),
                _ => None::<&tera::Error>,
            },
    {
        match self {
            CodegenError::LoadTemplateFileFailed { error, .. } => Some(error),
            CodegenError::RenderTemplateFileFailed { error, .. } => Some(error),
            CodegenError::InterpolateTemplateFileFailed { error, .. } => Some(error),
            _ => None,
        }
    }
}

} // verus!
