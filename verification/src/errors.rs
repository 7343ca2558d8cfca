//! The error type shared by every stage of a run.

use crate::text::{decimal, decimal_text, signed_decimal, signed_text, starts_with};
use vstd::prelude::*;

verus! {

/// The I/O error of std, carried through without being inspected.
#[verifier::external_type_specification]
#[verifier::external_body]
pub struct ExIoError(std::io::Error);

/// The parse error of `serde_yaml`, carried through without being inspected.
#[verifier::external_type_specification]
#[verifier::external_body]
pub struct ExYamlError(serde_yaml::Error);

/// The render error of `handlebars`, carried through without being inspected.
#[verifier::external_type_specification]
#[verifier::external_body]
pub struct ExRenderError(handlebars::RenderError);

/// The compilation error of `handlebars`, carried through without being inspected.
#[verifier::external_type_specification]
#[verifier::external_body]
pub struct ExTemplateError(handlebars::TemplateError);

/// Every way in which a run can fail.
#[derive(Debug)]
#[allow(inconsistent_fields)]
pub enum DotstrapError {
    /// The home directory could not be determined.
    HomeNotFound,
    /// A filesystem operation failed.
    Io(std::io::Error),
    /// A command ran and reported failure.
    CommandFailed { program: String, status: i32 },
    /// A command could not be started.
    CommandIo(String, std::io::Error),
    /// A YAML file is malformed.
    Yaml { source: serde_yaml::Error, path: String },
    /// A template compiled but could not be rendered.
    Template { source: handlebars::RenderError, path: String },
    /// A template could not be compiled.
    TemplateCompile { source: handlebars::TemplateError, path: String },
    /// The manifest lists no template.
    ManifestMissingTemplates(String),
    /// The manifest declares a schema version other than the supported one.
    UnsupportedManifestVersion { path: String, version: u8 },
    /// A required secret has no value.
    MissingSecret { name: String, provider: String },
    /// Homebrew cannot be run.
    BrewUnavailable,
    /// The package manifest is missing.
    BrewManifestMissing(String),
}

/// The text that `std::io::Error` displays, by `to_string`. Nothing is claimed of it.
#[verifier::external_body]
fn io_error_text(e: &std::io::Error) -> String {
    e.to_string()
}

/// The text that `serde_yaml::Error` displays, by `to_string`. Nothing is claimed of it.
#[verifier::external_body]
fn yaml_error_text(e: &serde_yaml::Error) -> String {
    e.to_string()
}

/// The text that `handlebars::RenderError` displays, by `to_string`. Nothing is claimed
/// of it.
#[verifier::external_body]
fn render_error_text(e: &handlebars::RenderError) -> String {
    e.to_string()
}

/// The text that `handlebars::TemplateError` displays, by `to_string`. Nothing is
/// claimed of it.
#[verifier::external_body]
fn template_error_text(e: &handlebars::TemplateError) -> String {
    e.to_string()
}

impl DotstrapError {
    /// Whether the error holds an underlying error whose text ends the message.
    pub open spec fn has_source(&self) -> bool {
        self is Io || self is CommandIo || self is Yaml || self is Template || self
            is TemplateCompile
    }

    /// The message up to the text of the underlying error; the whole message where
    /// there is none.
    pub open spec fn headline(&self) -> Seq<char> {
        match self {
            DotstrapError::HomeNotFound => "failed to determine home directory"@,
            DotstrapError::Io(_) => "I/O error: "@,
            DotstrapError::CommandFailed { program, status } => "command `"@ + program@
                + "` failed with status "@ + signed_decimal(*status as int),
            DotstrapError::CommandIo(program, _) => "failed to execute command `"@ + program@
                + "`: "@,
            DotstrapError::Yaml { source, path } => "failed to parse yaml file `"@ + path@ + "`: "@,
            DotstrapError::Template { source, path } => "template render failure for `"@ + path@
                + "`: "@,
            DotstrapError::TemplateCompile { source, path } =>
                "template compilation failure for `"@ + path@ + "`: "@,
            DotstrapError::ManifestMissingTemplates(path) => "manifest `"@ + path@
                + "` is missing templates section"@,
            DotstrapError::UnsupportedManifestVersion { path, version } => "manifest `"@ + path@
                + "` declares unsupported version "@ + decimal(*version as nat),
            DotstrapError::MissingSecret { name, provider } => "secret `"@ + name@
                + "` is not available from "@ + provider@,
            DotstrapError::BrewUnavailable => "Homebrew is not installed or not executable"@,
            DotstrapError::BrewManifestMissing(path) => "brew manifest file `"@ + path@
                + "` not found"@,
        }
    }

    /// The message of the error where `detail` is the text of the underlying error:
    /// the headline, followed by that text where the error has an underlying error.
    pub fn describe(&self, detail: &str) -> (r: String)
        ensures
            self.has_source() ==> r@ == self.headline() + detail@,
            !self.has_source() ==> r@ == self.headline(),
    {
        let mut out = String::new();
        match self {
            DotstrapError::HomeNotFound => {
                out.append("failed to determine home directory");
            },
            DotstrapError::Io(_) => {
                out.append("I/O error: ");
                out.append(detail);
            },
            DotstrapError::CommandFailed { program, status } => {
                out.append("command `");
                out.append(program.as_str());
                out.append("` failed with status ");
                out.append(signed_text(*status).as_str());
            },
            DotstrapError::CommandIo(program, _) => {
                out.append("failed to execute command `");
                out.append(program.as_str());
                out.append("`: ");
                out.append(detail);
            },
            DotstrapError::Yaml { source, path } => {
                out.append("failed to parse yaml file `");
                out.append(path.as_str());
                out.append("`: ");
                out.append(detail);
            },
            DotstrapError::Template { source, path } => {
                out.append("template render failure for `");
                out.append(path.as_str());
                out.append("`: ");
                out.append(detail);
            },
            DotstrapError::TemplateCompile { source, path } => {
                out.append("template compilation failure for `");
                out.append(path.as_str());
                out.append("`: ");
                out.append(detail);
            },
            DotstrapError::ManifestMissingTemplates(path) => {
                out.append("manifest `");
                out.append(path.as_str());
                out.append("` is missing templates section");
            },
            DotstrapError::UnsupportedManifestVersion { path, version } => {
                out.append("manifest `");
                out.append(path.as_str());
                out.append("` declares unsupported version ");
                out.append(decimal_text(*version as u64).as_str());
            },
            DotstrapError::MissingSecret { name, provider } => {
                out.append("secret `");
                out.append(name.as_str());
                out.append("` is not available from ");
                out.append(provider.as_str());
            },
            DotstrapError::BrewUnavailable => {
                out.append("Homebrew is not installed or not executable");
            },
            DotstrapError::BrewManifestMissing(path) => {
                out.append("brew manifest file `");
                out.append(path.as_str());
                out.append("` not found");
            },
        }
        assert(self.has_source() ==> out@ =~= self.headline() + detail@);
        assert(!self.has_source() ==> out@ =~= self.headline());
        out
    }

    /// The text of the underlying error, as that error displays it; empty where the
    /// error has no underlying error.
    fn source_text(&self) -> (r: String)
        ensures
            !self.has_source() ==> r@ == Seq::<char>::empty(),
    {
        match self {
            DotstrapError::Io(e) => io_error_text(e),
            DotstrapError::CommandIo(_, e) => io_error_text(e),
            DotstrapError::Yaml { source, path } => yaml_error_text(source),
            DotstrapError::Template { source, path } => render_error_text(source),
            DotstrapError::TemplateCompile { source, path } => template_error_text(source),
            _ => String::new(),
        }
    }

    /// The message of the error, as it is shown to the user: the headline, followed
    /// by the text of the underlying error where there is one.
    pub fn message(&self) -> (r: String)
        ensures
            starts_with(r@, self.headline()),
            !self.has_source() ==> r@ == self.headline(),
    {
        let detail = self.source_text();
        let out = self.describe(detail.as_str());
        assert(out@.subrange(0, self.headline().len() as int) =~= self.headline());
        out
    }
}

} // verus!
