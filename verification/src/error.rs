//! Why a resolution failed, and how the failure reads.

use crate::text::utf8_text;
use vstd::prelude::*;
use vstd::utf8::{decode_utf8, valid_utf8};

verus! {

/// Why a resolution failed.
#[derive(Debug, Clone, PartialEq, Eq)]
pub enum ResolveError {
    /// No marker of a known language is at the project's root.
    UnsupportedProject { path: String },
    /// The build tool could not be started.
    ToolMissing { reason: String },
    /// The build tool ran and did not end with exit code 0; `stderr` is
    /// what it wrote to standard error, byte for byte.
    ToolFailed { code: Option<i32>, stderr: Vec<u8> },
    /// The build tool ended with exit code 0, but what it wrote could not
    /// be decoded.
    MalformedOutput { detail: String },
}

/// The model of a failure.
pub enum ErrorModel {
    UnsupportedProject { path: Seq<char> },
    ToolMissing { reason: Seq<char> },
    ToolFailed { code: Option<i32>, stderr: Seq<u8> },
    MalformedOutput { detail: Seq<char> },
}

impl View for ResolveError {
    type V = ErrorModel;

    open spec fn view(&self) -> ErrorModel {
        match self {
            ResolveError::UnsupportedProject { path } => ErrorModel::UnsupportedProject {
                path: path@,
            },
            ResolveError::ToolMissing { reason } => ErrorModel::ToolMissing { reason: reason@ },
            ResolveError::ToolFailed { code, stderr } => ErrorModel::ToolFailed {
                code: *code,
                stderr: stderr@,
            },
            ResolveError::MalformedOutput { detail } => ErrorModel::MalformedOutput {
                detail: detail@,
            },
        }
    }
}

/// The text of one decimal digit.
pub open spec fn digit_text(digit: nat) -> Seq<char> {
    if digit == 0 {
        "0"@
    } else if digit == 1 {
        "1"@
    } else if digit == 2 {
        "2"@
    } else if digit == 3 {
        "3"@
    } else if digit == 4 {
        "4"@
    } else if digit == 5 {
        "5"@
    } else if digit == 6 {
        "6"@
    } else if digit == 7 {
        "7"@
    } else if digit == 8 {
        "8"@
    } else {
        "9"@
    }
}

/// A natural number in decimal digits, without leading zeros.
pub open spec fn digits_text(n: nat) -> Seq<char>
    decreases n,
{
    if n < 10 {
        digit_text(n)
    } else {
        digits_text(n / 10) + digit_text(n % 10)
    }
}

/// An integer in decimal digits, with a minus sign where it is negative.
pub open spec fn decimal_text(n: int) -> Seq<char> {
    if n < 0 {
        "-"@ + digits_text((-n) as nat)
    } else {
        digits_text(n as nat)
    }
}

/// An exit code as the messages show it.
pub open spec fn code_text(code: Option<i32>) -> Seq<char> {
    match code {
        Some(n) => decimal_text(n as int),
        None => "unknown"@,
    }
}

/// What a failed tool wrote to standard error, as the message shows it:
/// the text itself where the bytes are UTF-8.
pub open spec fn diagnostics_text(stderr: Seq<u8>) -> Seq<char> {
    if valid_utf8(stderr) {
        decode_utf8(stderr)
    } else {
        "<diagnostics that are not valid UTF-8>"@
    }
}

/// The message of a failure.
pub open spec fn message_text(error: ErrorModel) -> Seq<char> {
    match error {
        ErrorModel::UnsupportedProject { path } => "'"@ + path
            + "' does not contain a project recognized by Riff."@,
        ErrorModel::ToolMissing { reason } =>
            "Could not execute `cargo metadata`. Is `cargo` installed?\n\nGet instructions for installing Cargo: https://www.rust-lang.org/tools/install\nUnderlying error: "@
            + reason,
        ErrorModel::ToolFailed { code, stderr } => "`cargo metadata` exited with code "@
            + code_text(code) + ":\n"@ + diagnostics_text(stderr),
        ErrorModel::MalformedOutput { detail } => detail,
    }
}

fn digit(d: u64) -> (text: &'static str)
    requires
        d < 10,
    ensures
        text@ == digit_text(d as nat),
{
    if d == 0 {
        "0"
    } else if d == 1 {
        "1"
    } else if d == 2 {
        "2"
    } else if d == 3 {
        "3"
    } else if d == 4 {
        "4"
    } else if d == 5 {
        "5"
    } else if d == 6 {
        "6"
    } else if d == 7 {
        "7"
    } else if d == 8 {
        "8"
    } else {
        "9"
    }
}

fn digits(n: u64) -> (text: String)
    ensures
        text@ == digits_text(n as nat),
    decreases n,
{
    if n < 10 {
        digit(n).to_string()
    } else {
        let mut text = digits(n / 10);
        text.append(digit(n % 10));
        text
    }
}

/// Writes an integer in decimal digits.
pub fn decimal(n: i32) -> (text: String)
    ensures
        text@ == decimal_text(n as int),
{
    let wide: i64 = n as i64;
    if wide < 0 {
        let mut text = "-".to_string();
        let rest = digits((-wide) as u64);
        text.append(rest.as_str());
        text
    } else {
        digits(wide as u64)
    }
}

impl ResolveError {
    /// The message of the failure, with what caused it: the path, the
    /// reason, the exit code and the tool's own words.
    pub fn message(&self) -> (text: String)
        ensures
            text@ == message_text(self@),
    {
        match self {
            ResolveError::UnsupportedProject { path } => {
                let mut text = "'".to_string();
                text.append(path.as_str());
                text.append("' does not contain a project recognized by Riff.");
                text
            },
            ResolveError::ToolMissing { reason } => {
                let mut text =
                    "Could not execute `cargo metadata`. Is `cargo` installed?\n\nGet instructions for installing Cargo: https://www.rust-lang.org/tools/install\nUnderlying error: ".to_string();
                text.append(reason.as_str());
                text
            },
            ResolveError::ToolFailed { code, stderr } => {
                let mut text = "`cargo metadata` exited with code ".to_string();
                match code {
                    Some(n) => {
                        let number = decimal(*n);
                        text.append(number.as_str());
                    },
                    None => {
                        text.append("unknown");
                    },
                }
                text.append(":\n");
                let diagnostics = match utf8_text(stderr.as_slice()) {
                    Some(words) => words,
                    None => "<diagnostics that are not valid UTF-8>",
                };
                proof {
                    vstd::utf8::encode_utf8_decode_utf8(diagnostics@);
                }
                text.append(diagnostics);
                text
            },
            ResolveError::MalformedOutput { detail } => detail.clone(),
        }
    }
}

} // verus!
