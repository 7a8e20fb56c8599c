//! Asking the build tool for a project's packages: what to run, and what
//! its outcome means.

use crate::detect::marker_text;
use crate::dev_env::DetectedLanguage;
use crate::error::{ErrorModel, ResolveError};
use crate::text::utf8_text;
use vstd::prelude::*;
use vstd::utf8::{decode_utf8, valid_utf8};

verus! {

/// The request for a project's packages: the tool of the language is to
/// be run on the project's manifest.
#[derive(Debug, Clone, Copy, PartialEq, Eq, Structural)]
pub struct MetadataRequest {
    pub language: DetectedLanguage,
    pub offline: bool,
}

/// How a run of the build tool ended.
#[derive(Debug, Clone, PartialEq, Eq)]
pub enum ToolOutcome {
    /// The tool could not be started.
    NotStarted { reason: String },
    /// The tool ran to its end; `code` is its exit code, if it has one.
    Exited { code: Option<i32>, stdout: Vec<u8>, stderr: Vec<u8> },
}

/// The model of an outcome.
pub enum OutcomeModel {
    NotStarted { reason: Seq<char> },
    Exited { code: Option<i32>, stdout: Seq<u8>, stderr: Seq<u8> },
}

impl View for ToolOutcome {
    type V = OutcomeModel;

    open spec fn view(&self) -> OutcomeModel {
        match self {
            ToolOutcome::NotStarted { reason } => OutcomeModel::NotStarted { reason: reason@ },
            ToolOutcome::Exited { code, stdout, stderr } => OutcomeModel::Exited {
                code: *code,
                stdout: stdout@,
                stderr: stderr@,
            },
        }
    }
}

/// The program that reports the packages of a language's projects.
pub open spec fn program_text(language: DetectedLanguage) -> Seq<char> {
    match language {
        DetectedLanguage::Rust => "cargo"@,
    }
}

/// The arguments with which the program is run on a manifest.
pub open spec fn arguments_text(request: MetadataRequest, manifest_path: Seq<char>) -> Seq<
    Seq<char>,
> {
    let always = seq![
        "metadata"@,
        "--format-version"@,
        "1"@,
        "--manifest-path"@,
        manifest_path,
    ];
    if request.offline {
        always.push("--offline"@)
    } else {
        always
    }
}

/// What the tool wrote to standard output.
pub open spec fn written(outcome: OutcomeModel) -> Seq<u8> {
    match outcome {
        OutcomeModel::NotStarted { .. } => Seq::empty(),
        OutcomeModel::Exited { stdout, .. } => stdout,
    }
}

/// What an outcome means: the failure it stands for, or nothing where the
/// tool ended with exit code 0 and wrote UTF-8.
pub open spec fn outcome_failure(outcome: OutcomeModel) -> Option<ErrorModel> {
    match outcome {
        OutcomeModel::NotStarted { reason } => Some(ErrorModel::ToolMissing { reason }),
        OutcomeModel::Exited { code, stdout, stderr } => if code != Some(0i32) {
            Some(ErrorModel::ToolFailed { code, stderr })
        } else if !valid_utf8(stdout) {
            Some(
                ErrorModel::MalformedOutput {
                    detail: "Output produced by `cargo metadata` was not valid UTF8"@,
                },
            )
        } else {
            None
        },
    }
}

impl MetadataRequest {
    /// The program to run.
    pub fn program(&self) -> (name: &'static str)
        ensures
            name@ == program_text(self.language),
    {
        match self.language {
            DetectedLanguage::Rust => "cargo",
        }
    }

    /// The file, under the project's root, that the program is run on.
    pub fn manifest_file(&self) -> (name: &'static str)
        ensures
            name@ == marker_text(self.language),
    {
        self.language.marker_file()
    }

    /// The arguments to run the program with, given where the manifest
    /// is.
    pub fn arguments(&self, manifest_path: &str) -> (arguments: Vec<String>)
        ensures
            crate::text::texts(arguments@) == arguments_text(*self, manifest_path@),
    {
        let mut arguments: Vec<String> = Vec::new();
        arguments.push("metadata".to_string());
        arguments.push("--format-version".to_string());
        arguments.push("1".to_string());
        arguments.push("--manifest-path".to_string());
        arguments.push(manifest_path.to_string());
        if self.offline {
            arguments.push("--offline".to_string());
        }
        assert(crate::text::texts(arguments@) =~= arguments_text(*self, manifest_path@));
        arguments
    }
}

/// Reads the outcome of the tool: what it wrote to standard output, as
/// text, where it ended with exit code 0 and wrote UTF-8; else the failure
/// of its class, with the tool's exit code and its own words.
pub fn metadata_text(outcome: ToolOutcome) -> (r: Result<String, ResolveError>)
    ensures
        match r {
            Ok(text) => outcome_failure(outcome@) is None && text@ == decode_utf8(
                written(outcome@),
            ),
            Err(error) => outcome_failure(outcome@) == Some(error@),
        },
{
    match outcome {
        ToolOutcome::NotStarted { reason } => Err(ResolveError::ToolMissing { reason }),
        ToolOutcome::Exited { code, stdout, stderr } => {
            let succeeded = match code {
                Some(n) => n == 0,
                None => false,
            };
            if !succeeded {
                Err(ResolveError::ToolFailed { code, stderr })
            } else {
                match utf8_text(stdout.as_slice()) {
                    Some(text) => {
                        proof {
                            vstd::utf8::encode_utf8_decode_utf8(text@);
                        }
                        Ok(text.to_string())
                    },
                    None => Err(
                        ResolveError::MalformedOutput {
                            detail: "Output produced by `cargo metadata` was not valid UTF8".to_string(),
                        },
                    ),
                }
            }
        },
    }
}

} // verus!
